use lidart::frame::{decode_frame, FrameError, GreyFrame};
use lidart::health::HealthResponse;

fn png_bytes(width: u32, height: u32, samples: Vec<u8>) -> Vec<u8> {
    let img = image::GrayImage::from_raw(width, height, samples).unwrap();
    let mut out = std::io::Cursor::new(Vec::new());
    img.write_to(&mut out, image::ImageFormat::Png).unwrap();
    out.into_inner()
}

#[test]
fn decoded_frame_reads_pixels_by_column_and_row() {
    let data = png_bytes(3, 2, vec![10, 20, 30, 40, 50, 60]);
    let frame = match decode_frame(&data) { Ok(f) => f, Err(_) => panic!("no frame") };
    assert_eq!(frame.width(), 3);
    assert_eq!(frame.height(), 2);
    assert_eq!(frame.pixel(0, 0), 10);
    assert_eq!(frame.pixel(2, 0), 30);
    assert_eq!(frame.pixel(0, 1), 40);
    assert_eq!(frame.pixel(2, 1), 60);
}

#[test]
fn undecodable_bytes_give_no_frame() {
    assert!(matches!(decode_frame(&[]), Err(FrameError::Undecodable(_))));
    match decode_frame(b"not a picture") {
        Err(FrameError::Undecodable(message)) => assert!(!message.is_empty()),
        Ok(_) => panic!("decoded a frame from text"),
    }
}

#[test]
fn health_response_holds_text() {
    let r = HealthResponse { uptime: "1.5 s".to_string() };
    assert_eq!(r.uptime, "1.5 s");
}

#[test]
fn frame_from_samples_needs_enough_samples() {
    let f = GreyFrame::from_samples(2, 2, vec![1, 2, 3, 4, 5]).unwrap();
    assert_eq!(f.pixel(1, 1), 4);
    assert!(GreyFrame::from_samples(2, 3, vec![1, 2, 3, 4, 5]).is_none());
    assert!(GreyFrame::from_samples(0, 7, vec![]).is_some());
}
