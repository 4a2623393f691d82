use elgato_streamdeck::info::{is_vendor_familiar, Kind, ELGATO_VENDOR_ID};
use elgato_streamdeck::util::{extract_str, feature_report_buffer, flip_key_index, read_button_states};
use elgato_streamdeck::{
    DeviceStateReader, DeviceStateUpdate, ImageRect, StreamDeck, StreamDeckError, StreamDeckInput,
    WriteImageParameters,
};

const ALL: [Kind; 12] = [
    Kind::Original,
    Kind::OriginalV2,
    Kind::Mini,
    Kind::Xl,
    Kind::XlV2,
    Kind::Mk2,
    Kind::MiniMk2,
    Kind::Neo,
    Kind::Pedal,
    Kind::Plus,
    Kind::Mk2Scissor,
    Kind::MiniMk2Module,
];

#[test]
fn lookup_finds_each_model_once() {
    for k in ALL {
        assert_eq!(Kind::from_vid_pid(k.vendor_id(), k.product_id()), Some(k));
        let hits = ALL.iter().filter(|o| o.product_id() == k.product_id()).count();
        assert_eq!(hits, 1);
    }
    assert_eq!(Kind::from_vid_pid(ELGATO_VENDOR_ID, 0x0001), None);
    assert_eq!(Kind::from_vid_pid(0x1234, 0x0060), None);
    assert!(is_vendor_familiar(&0x0fd9));
    assert!(!is_vendor_familiar(&0x0fda));
}

#[test]
fn lookup_gives_documented_counts() {
    let plus = Kind::from_vid_pid(0x0fd9, 0x0084).unwrap();
    assert_eq!((plus.key_count(), plus.encoder_count(), plus.touchpoint_count()), (8, 4, 0));
    let neo = Kind::from_vid_pid(0x0fd9, 0x009a).unwrap();
    assert_eq!((neo.key_count(), neo.encoder_count(), neo.touchpoint_count()), (8, 0, 2));
    let xl = Kind::from_vid_pid(0x0fd9, 0x006c).unwrap();
    assert_eq!((xl.key_count(), xl.row_count(), xl.column_count()), (32, 4, 8));
    let mini = Kind::from_vid_pid(0x0fd9, 0x0063).unwrap();
    assert_eq!((mini.key_count(), mini.row_count(), mini.column_count()), (6, 2, 3));
    assert_eq!(Kind::Pedal.key_count(), 3);
    assert!(!Kind::Pedal.is_visual());
    assert_eq!(Kind::Plus.lcd_strip_size(), Some((800, 100)));
    assert_eq!(Kind::Neo.lcd_strip_size(), Some((248, 58)));
    assert_eq!(Kind::Mk2.lcd_strip_size(), None);
}

#[test]
fn parameters_for_key() {
    let p = WriteImageParameters::for_key(Kind::Original, 15606);
    assert_eq!((p.image_report_length, p.image_report_payload_length), (8191, 7803));
    let p = WriteImageParameters::for_key(Kind::Mini, 100);
    assert_eq!((p.image_report_length, p.image_report_payload_length), (1024, 1008));
    let p = WriteImageParameters::for_key(Kind::Xl, 100);
    assert_eq!((p.image_report_length, p.image_report_payload_length), (1024, 1016));
}

fn payload(n: usize) -> Vec<u8> {
    (0..n).map(|i| (i % 251) as u8 + 1).collect()
}

#[test]
fn modern_key_image_is_chunked() {
    let deck = StreamDeck::new(Kind::Mk2);
    let data = payload(2500);
    let reports = deck.send_image(3, &data).unwrap();
    assert_eq!(reports.len(), 3);
    let mut joined = vec![];
    for (page, r) in reports.iter().enumerate() {
        assert_eq!(r.len(), 1024);
        let len = if page < 2 { 1016 } else { 2500 - 2032 };
        let last = if page == 2 { 1 } else { 0 };
        assert_eq!(&r[..8], &[2, 7, 3, last, (len & 0xff) as u8, (len >> 8) as u8, page as u8, 0]);
        joined.extend_from_slice(&r[8..8 + len]);
        assert!(r[8 + len..].iter().all(|b| *b == 0));
    }
    assert_eq!(joined, data);
}

#[test]
fn chunk_count_is_ceiling() {
    let deck = StreamDeck::new(Kind::Xl);
    for (n, expected) in [(0usize, 0usize), (1, 1), (1016, 1), (1017, 2), (2032, 2), (2033, 3)] {
        let reports = deck.send_image(0, &payload(n)).unwrap();
        assert_eq!(reports.len(), expected);
        let flagged = reports.iter().filter(|r| r[3] == 1).count();
        assert_eq!(flagged, if n == 0 { 0 } else { 1 });
        if n > 0 {
            assert_eq!(reports.last().unwrap()[3], 1);
        }
    }
}

#[test]
fn first_model_splits_in_two_and_mirrors_keys() {
    let deck = StreamDeck::new(Kind::Original);
    let data = payload(15606);
    let reports = deck.send_image(0, &data).unwrap();
    assert_eq!(reports.len(), 2);
    assert_eq!(&reports[0][..6], &[2, 1, 1, 0, 0, 5]);
    assert_eq!(&reports[1][..6], &[2, 1, 2, 0, 1, 5]);
    assert_eq!(reports[0].len(), 8191);
    let mut joined = reports[0][16..16 + 7803].to_vec();
    joined.extend_from_slice(&reports[1][16..16 + 7803]);
    assert_eq!(joined, data);
    assert_eq!(flip_key_index(&Kind::Original, 0), 4);
    assert_eq!(flip_key_index(&Kind::Original, 7), 7);
    assert_eq!(flip_key_index(&Kind::Original, 14), 10);
}

#[test]
fn first_model_always_splits_in_two() {
    let deck = StreamDeck::new(Kind::Original);
    let data = payload(5);
    let reports = deck.send_image(7, &data).unwrap();
    assert_eq!(reports.len(), 2);
    assert_eq!(&reports[0][..6], &[2, 1, 1, 0, 0, 8]);
    assert_eq!(&reports[1][..6], &[2, 1, 2, 0, 1, 8]);
    let mut joined = reports[0][16..19].to_vec();
    joined.extend_from_slice(&reports[1][16..18]);
    assert_eq!(joined, data);
    assert!(reports[1][18..].iter().all(|b| *b == 0));
    let p = WriteImageParameters::for_key(Kind::Original, 5);
    assert_eq!(p.image_report_payload_length, 3);
    assert_eq!(deck.send_image(0, &[1]).unwrap().len(), 1);
}

#[test]
fn first_model_refuses_unsplittable_image() {
    let deck = StreamDeck::new(Kind::Original);
    assert_eq!(deck.send_image(0, &payload(20000)), Err(StreamDeckError::InvalidImageSize));
    assert_eq!(deck.send_image(0, &[]), Ok(vec![]));
}

#[test]
fn small_legacy_pages_start_at_zero() {
    let deck = StreamDeck::new(Kind::Mini);
    let reports = deck.send_image(2, &payload(1500)).unwrap();
    assert_eq!(reports.len(), 2);
    assert_eq!(&reports[0][..6], &[2, 1, 0, 0, 0, 3]);
    assert_eq!(&reports[1][..6], &[2, 1, 1, 0, 1, 3]);
}

#[test]
fn invalid_key_is_refused() {
    let deck = StreamDeck::new(Kind::Mk2);
    assert_eq!(deck.send_image(15, &payload(10)), Err(StreamDeckError::InvalidKeyIndex));
    assert_eq!(deck.send_image(255, &payload(10)), Err(StreamDeckError::InvalidKeyIndex));
    let pedal = StreamDeck::new(Kind::Pedal);
    assert_eq!(pedal.send_image(3, &payload(10)), Err(StreamDeckError::InvalidKeyIndex));
    assert_eq!(pedal.send_image(0, &payload(10)), Err(StreamDeckError::NoScreen));
}

#[test]
fn flush_sends_in_queue_order() {
    let mut deck = StreamDeck::new(Kind::Mk2);
    deck.write_image(2, &payload(10)).unwrap();
    deck.write_image(0, &payload(20)).unwrap();
    deck.write_image(2, &payload(30)).unwrap();
    let reports = deck.flush().unwrap();
    assert_eq!(reports.len(), 3);
    assert_eq!(reports.iter().map(|r| r[2]).collect::<Vec<_>>(), vec![2, 0, 2]);
    assert_eq!(reports.iter().map(|r| r[4]).collect::<Vec<_>>(), vec![10, 20, 30]);
    assert_eq!(deck.flush(), Ok(vec![]));
}

#[test]
fn write_refuses_bad_key_without_queueing() {
    let mut deck = StreamDeck::new(Kind::Mini);
    deck.write_image(1, &payload(5)).unwrap();
    assert_eq!(deck.write_image(6, &payload(5)), Err(StreamDeckError::InvalidKeyIndex));
    assert_eq!(deck.write_image(9, &payload(5)), Err(StreamDeckError::InvalidKeyIndex));
    let reports = deck.flush().unwrap();
    assert_eq!(reports.len(), 1);
    assert_eq!(reports[0][5], 2);
    assert_eq!(deck.flush(), Ok(vec![]));
}

#[test]
fn sending_errors_come_at_flush() {
    let mut pedal = StreamDeck::new(Kind::Pedal);
    assert_eq!(pedal.write_image(0, &payload(5)), Ok(()));
    assert_eq!(pedal.write_image(3, &payload(5)), Err(StreamDeckError::InvalidKeyIndex));
    assert_eq!(pedal.flush(), Err(StreamDeckError::NoScreen));
    assert_eq!(pedal.flush(), Err(StreamDeckError::NoScreen));
    pedal.clear_image_cache();
    assert_eq!(pedal.flush(), Ok(vec![]));
    let mut first = StreamDeck::new(Kind::Original);
    assert_eq!(first.write_image(1, &payload(10)), Ok(()));
    assert_eq!(first.write_image(0, &payload(20000)), Ok(()));
    assert_eq!(first.flush(), Err(StreamDeckError::InvalidImageSize));
    first.clear_image_cache();
    first.write_image(0, &payload(16350)).unwrap();
    let reports = first.flush().unwrap();
    assert_eq!(reports.len(), 2);
    assert!(reports.iter().all(|r| r.len() == 8191));
}

#[test]
fn clear_image_cache_drops_queue() {
    let mut deck = StreamDeck::new(Kind::Xl);
    deck.write_image(3, &payload(5)).unwrap();
    deck.clear_image_cache();
    assert_eq!(deck.flush(), Ok(vec![]));
}

#[test]
fn brightness_is_clamped() {
    let modern = StreamDeck::new(Kind::Mk2);
    for p in [150u8, 255] {
        assert_eq!(modern.set_brightness(p), modern.set_brightness(100));
    }
    let r = modern.set_brightness(150);
    assert_eq!(r.len(), 32);
    assert_eq!(&r[..3], &[0x03, 0x08, 100]);
    assert_eq!(modern.set_brightness(42)[2], 42);
    let legacy = StreamDeck::new(Kind::Mini);
    let r = legacy.set_brightness(255);
    assert_eq!(r.len(), 17);
    assert_eq!(&r[..6], &[0x05, 0x55, 0xaa, 0xd1, 0x01, 100]);
    assert!(r[6..].iter().all(|b| *b == 0));
}

#[test]
fn reset_reports() {
    let r = StreamDeck::new(Kind::Original).reset();
    assert_eq!(r.len(), 17);
    assert_eq!(&r[..2], &[0x0b, 0x63]);
    let r = StreamDeck::new(Kind::Plus).reset();
    assert_eq!(r.len(), 32);
    assert_eq!(&r[..2], &[0x03, 0x02]);
    assert!(r[2..].iter().all(|b| *b == 0));
}

#[test]
fn screen_writes_need_a_screen() {
    let rect = ImageRect { w: 10, h: 20, data: payload(50) };
    let mk2 = StreamDeck::new(Kind::Mk2);
    assert_eq!(mk2.write_lcd(0, 0, &rect), Err(StreamDeckError::UnsupportedOperation));
    assert_eq!(mk2.write_lcd_fill(&payload(50)), Err(StreamDeckError::UnsupportedOperation));
    let neo = StreamDeck::new(Kind::Neo);
    assert_eq!(neo.write_lcd(0, 0, &rect), Err(StreamDeckError::UnsupportedOperation));
}

#[test]
fn lcd_region_header() {
    let rect = ImageRect { w: 300, h: 100, data: payload(1100) };
    let plus = StreamDeck::new(Kind::Plus);
    let reports = plus.write_lcd(0x0102, 7, &rect).unwrap();
    assert_eq!(reports.len(), 2);
    assert_eq!(&reports[0][..16], &[2, 0x0c, 0x02, 0x01, 7, 0, 0x2c, 0x01, 100, 0, 0, 0, 0, 0xf0, 0x03, 0]);
    assert_eq!(&reports[1][..16], &[2, 0x0c, 0x02, 0x01, 7, 0, 0x2c, 0x01, 100, 0, 1, 1, 0, 92, 0, 0]);
    let fill = plus.write_lcd_fill(&payload(10)).unwrap();
    assert_eq!(&fill[0][..16], &[2, 0x0c, 0, 0, 0, 0, 0x20, 0x03, 100, 0, 1, 0, 0, 10, 0, 0]);
    let neo = StreamDeck::new(Kind::Neo);
    let fill = neo.write_lcd_fill(&payload(10)).unwrap();
    assert_eq!(&fill[0][..8], &[2, 0x0b, 0, 1, 10, 0, 0, 0]);
    assert_eq!(fill[0].len(), 1024);
}

#[test]
fn clear_images_wait_for_flush() {
    let mut deck = StreamDeck::new(Kind::Mini);
    let blank = payload(100);
    deck.clear_button_image(4, &blank).unwrap();
    let one = deck.flush().unwrap();
    assert_eq!(one, deck.send_image(4, &blank).unwrap());
    assert_eq!(deck.clear_button_image(6, &blank), Err(StreamDeckError::InvalidKeyIndex));
    assert_eq!(deck.flush(), Ok(vec![]));
    deck.clear_all_button_images(&blank).unwrap();
    let all = deck.flush().unwrap();
    assert_eq!(all.len(), 6);
    assert_eq!(all.iter().map(|r| r[5]).collect::<Vec<_>>(), vec![1, 2, 3, 4, 5, 6]);
    let mut pedal = StreamDeck::new(Kind::Pedal);
    assert_eq!(pedal.clear_all_button_images(&blank), Err(StreamDeckError::NoScreen));
    assert_eq!(pedal.flush(), Ok(vec![]));
}

#[test]
fn touchpoint_color() {
    let neo = StreamDeck::new(Kind::Neo);
    assert_eq!(neo.set_touchpoint_color(1, 10, 20, 30), Ok(vec![3, 6, 9, 10, 20, 30]));
    assert_eq!(neo.set_touchpoint_color(2, 0, 0, 0), Err(StreamDeckError::InvalidTouchPointIndex));
    let mk2 = StreamDeck::new(Kind::Mk2);
    assert_eq!(mk2.set_touchpoint_color(0, 0, 0, 0), Err(StreamDeckError::InvalidTouchPointIndex));
}

#[test]
fn decode_plain_button_reports() {
    let mini = StreamDeck::new(Kind::Mini);
    assert_eq!(mini.input_report_length(), 7);
    assert_eq!(mini.read_input(&[0, 1, 1, 1, 1, 1, 1]), Ok(StreamDeckInput::NoData));
    assert_eq!(
        mini.read_input(&[1, 0, 1, 0, 0, 5, 0]),
        Ok(StreamDeckInput::ButtonStateChange(vec![false, true, false, false, true, false]))
    );
    assert_eq!(mini.read_input(&[1, 0, 1]), Err(StreamDeckError::BadData));
    let neo = StreamDeck::new(Kind::Neo);
    assert_eq!(neo.input_report_length(), 14);
    let mut data = vec![1, 0, 0, 0, 0, 0, 0, 0, 0, 0, 0, 0, 0, 1];
    data[4] = 1;
    assert_eq!(
        neo.read_input(&data),
        Ok(StreamDeckInput::ButtonStateChange(vec![true, false, false, false, false, false, false, false, false, true]))
    );
    let first = StreamDeck::new(Kind::Original);
    let mut data = vec![0u8; 16];
    data[0] = 1;
    data[1] = 1;
    let states = read_button_states(&Kind::Original, &data);
    assert_eq!(states.len(), 15);
    assert!(states[4]);
    assert_eq!(states.iter().filter(|b| **b).count(), 1);
    assert!(!first.read_input(&data).unwrap().is_empty());
}

#[test]
fn decode_plus_reports() {
    let plus = StreamDeck::new(Kind::Plus);
    let mut d = vec![1u8, 2, 0, 0, 3, 0, 0x10, 0x01, 0x20, 0, 0x30, 0, 0x40, 0x02];
    assert_eq!(plus.read_input(&d), Ok(StreamDeckInput::TouchScreenSwipe((0x110, 0x20), (0x30, 0x240))));
    d[4] = 1;
    assert_eq!(plus.read_input(&d), Ok(StreamDeckInput::TouchScreenPress(0x110, 0x20)));
    d[4] = 2;
    assert_eq!(plus.read_input(&d), Ok(StreamDeckInput::TouchScreenLongPress(0x110, 0x20)));
    d[4] = 9;
    assert_eq!(plus.read_input(&d), Err(StreamDeckError::BadData));
    let e = vec![1u8, 3, 0, 0, 1, 1, 0xff, 0, 0x80, 0, 0, 0, 0, 0];
    assert_eq!(plus.read_input(&e), Ok(StreamDeckInput::EncoderTwist(vec![1, -1, 0, -128])));
    let e = vec![1u8, 3, 0, 0, 0, 1, 0, 7, 0, 0, 0, 0, 0, 0];
    assert_eq!(plus.read_input(&e), Ok(StreamDeckInput::EncoderStateChange(vec![true, false, true, false])));
    let e = vec![1u8, 3, 0, 0, 5, 1, 0, 7, 0, 0, 0, 0, 0, 0];
    assert_eq!(plus.read_input(&e), Err(StreamDeckError::BadData));
    let b = vec![1u8, 0, 0, 0, 0, 0, 1, 0, 0, 0, 0, 1, 0, 0];
    assert_eq!(
        plus.read_input(&b),
        Ok(StreamDeckInput::ButtonStateChange(vec![false, false, true, false, false, false, false, true]))
    );
    let x = vec![1u8, 7, 0, 0, 0, 0, 0, 0, 0, 0, 0, 0, 0, 0];
    assert_eq!(plus.read_input(&x), Err(StreamDeckError::BadData));
}

#[test]
fn is_empty_only_for_no_data() {
    assert!(StreamDeckInput::NoData.is_empty());
    assert!(!StreamDeckInput::ButtonStateChange(vec![]).is_empty());
    assert!(!StreamDeckInput::TouchScreenPress(1, 2).is_empty());
}

#[test]
fn differ_reports_changed_buttons() {
    let mut reader = DeviceStateReader::new(Kind::Pedal);
    let events = reader.read(StreamDeckInput::ButtonStateChange(vec![true, false, true]));
    assert_eq!(events, vec![DeviceStateUpdate::ButtonDown(0), DeviceStateUpdate::ButtonDown(2)]);
    let events = reader.read(StreamDeckInput::ButtonStateChange(vec![false, false, true]));
    assert_eq!(events, vec![DeviceStateUpdate::ButtonUp(0)]);
}

#[test]
fn differ_is_idempotent() {
    let mut reader = StreamDeck::new(Kind::Mini).get_reader();
    let v = vec![true, false, true, true, false, false];
    assert_eq!(reader.read(StreamDeckInput::ButtonStateChange(v.clone())).len(), 3);
    assert!(reader.read(StreamDeckInput::ButtonStateChange(v)).is_empty());
    let mut plus = DeviceStateReader::new(Kind::Plus);
    let e = vec![false, true, false, false];
    assert_eq!(plus.read(StreamDeckInput::EncoderStateChange(e.clone())), vec![DeviceStateUpdate::EncoderDown(1)]);
    assert!(plus.read(StreamDeckInput::EncoderStateChange(e)).is_empty());
    assert_eq!(
        plus.read(StreamDeckInput::EncoderStateChange(vec![false; 4])),
        vec![DeviceStateUpdate::EncoderUp(1)]
    );
}

#[test]
fn touch_points_follow_keys() {
    let mut reader = DeviceStateReader::new(Kind::Neo);
    let mut v = vec![false; 10];
    v[8] = true;
    assert_eq!(reader.read(StreamDeckInput::ButtonStateChange(v)), vec![DeviceStateUpdate::TouchPointDown(0)]);
    assert_eq!(
        reader.read(StreamDeckInput::ButtonStateChange(vec![false; 10])),
        vec![DeviceStateUpdate::TouchPointUp(0)]
    );
    let mut v = vec![false; 10];
    v[9] = true;
    v[7] = true;
    assert_eq!(
        reader.read(StreamDeckInput::ButtonStateChange(v)),
        vec![DeviceStateUpdate::ButtonDown(7), DeviceStateUpdate::TouchPointDown(1)]
    );
}

#[test]
fn edge_events_pass_through() {
    let mut reader = DeviceStateReader::new(Kind::Plus);
    assert_eq!(
        reader.read(StreamDeckInput::EncoderTwist(vec![0, 3, 0, -2])),
        vec![DeviceStateUpdate::EncoderTwist(1, 3), DeviceStateUpdate::EncoderTwist(3, -2)]
    );
    assert_eq!(reader.read(StreamDeckInput::TouchScreenPress(5, 6)), vec![DeviceStateUpdate::TouchScreenPress(5, 6)]);
    assert_eq!(
        reader.read(StreamDeckInput::TouchScreenLongPress(5, 6)),
        vec![DeviceStateUpdate::TouchScreenLongPress(5, 6)]
    );
    assert_eq!(
        reader.read(StreamDeckInput::TouchScreenSwipe((1, 2), (3, 4))),
        vec![DeviceStateUpdate::TouchScreenSwipe((1, 2), (3, 4))]
    );
    assert!(reader.read(StreamDeckInput::NoData).is_empty());
    assert_eq!(
        reader.read(StreamDeckInput::ButtonStateChange(vec![true; 8])).len(),
        8
    );
}

#[test]
fn serial_and_firmware_text() {
    let mini = StreamDeck::new(Kind::Mini);
    assert_eq!(mini.serial_number_request(), (0x03, 17));
    let mut report = vec![3u8, 0, 0, 0, 0];
    report.extend_from_slice(b"\x01AB12\x01C");
    report.extend_from_slice(&[0, 0, 0, 0, 0]);
    assert_eq!(mini.serial_number(&report), Ok("AB12C".to_string()));
    assert_eq!(mini.firmware_version(&report), Ok("AB12C".to_string()));
    let bad = vec![3u8, 0, 0, 0, 0, 0xff, 0xfe];
    assert_eq!(mini.serial_number(&bad), Err(StreamDeckError::Utf8Error));
    assert_eq!(mini.serial_number(&[3, 0]), Err(StreamDeckError::BadData));
    let xl = StreamDeck::new(Kind::Xl);
    assert_eq!(xl.serial_number_request(), (0x06, 32));
    assert_eq!(xl.firmware_version_request(), (0x05, 32));
    let mut fw = vec![5u8, 0, 0, 0, 0, 0];
    fw.extend_from_slice(b"1.0.2\0\0");
    assert_eq!(xl.firmware_version(&fw), Ok("1.0.2".to_string()));
    assert_eq!(StreamDeck::new(Kind::MiniMk2Module).firmware_version_request(), (0xa1, 17));
    assert_eq!(extract_str(b"x\0y"), Some("x".to_string()));
    assert_eq!(extract_str(b"abc"), Some("abc".to_string()));
    assert_eq!(extract_str(b"ok\0\xff"), Some("ok".to_string()));
}

#[test]
fn feature_buffer_layout() {
    let b = feature_report_buffer(0x06, 32);
    assert_eq!(b.len(), 32);
    assert_eq!(b[0], 0x06);
    assert!(b[1..].iter().all(|x| *x == 0));
}
