use bytes::Bytes;
use rocketmq_remoting::frame::Frame;

#[test]
fn array_frame_takes_items_in_order() {
    let mut frame = Frame::array();
    assert!(frame.is_array());
    assert!(!Frame::Integer(1).is_array());
    assert!(!Frame::U8(1).is_array());
    assert!(!Frame::Bulk(Bytes::new()).is_array());
    assert!(matches!(&frame, Frame::Array(items) if items.is_empty()));
    frame.push_bulk(Bytes::from_static(b"abc"));
    frame.push_int32(-7);
    frame.push_u8(9);
    let copy = frame.clone();
    for frame in [frame, copy] {
        match frame {
            Frame::Array(items) => {
                assert_eq!(items.len(), 3);
                assert!(matches!(&items[0], Frame::Bulk(bytes) if &bytes[..] == b"abc"));
                assert!(matches!(items[1], Frame::Integer(-7)));
                assert!(matches!(items[2], Frame::U8(9)));
            }
            _ => panic!("not an array frame"),
        }
    }
}
