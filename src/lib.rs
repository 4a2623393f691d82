//! Host-side protocol for Elgato Stream Deck panels: the model table, the chunked
//! image reports, the decoding of input reports and the edge detection over them.
//! The transport itself (opening a device, exchanging reports) stays with the caller:
//! every operation here takes the bytes that were read and gives the bytes to send.
use vstd::prelude::*;

/// Models and their layouts
pub mod info;
/// Chunked image reports
pub mod transfer;
/// Decoding of input and feature reports
pub mod util;

use crate::info::Kind;
use crate::transfer::{
    image_data_reports, image_reports, key_parameters, parameters_fit,
    views, ReportHeader,
};
pub use crate::transfer::WriteImageParameters;
use crate::util::{
    decode_input, flip_key_index, input_report_len, input_report_length, read_button_states,
    read_encoder_input, read_lcd_input, spec_flip_key_index, InputSnapshot, extract_str, text_of,
    remove_char, copy_from,
};

verus! {

/// Type of input that the device produced
#[derive(Debug, PartialEq)]
pub enum StreamDeckInput {
    /// No data was passed from the device
    NoData,
    /// Button was pressed
    ButtonStateChange(Vec<bool>),
    /// Encoder/Knob was pressed
    EncoderStateChange(Vec<bool>),
    /// Encoder/Knob was twisted/turned
    EncoderTwist(Vec<i8>),
    /// Touch screen received short press
    TouchScreenPress(u16, u16),
    /// Touch screen received long press
    TouchScreenLongPress(u16, u16),
    /// Touch screen received a swipe
    TouchScreenSwipe((u16, u16), (u16, u16)),
}

impl Clone for StreamDeckInput {
    fn clone(&self) -> (r: Self) {
        match self {
            StreamDeckInput::NoData => StreamDeckInput::NoData,
            StreamDeckInput::ButtonStateChange(v) => StreamDeckInput::ButtonStateChange(v.clone()),
            StreamDeckInput::EncoderStateChange(v) => StreamDeckInput::EncoderStateChange(v.clone()),
            StreamDeckInput::EncoderTwist(v) => StreamDeckInput::EncoderTwist(v.clone()),
            StreamDeckInput::TouchScreenPress(x, y) => StreamDeckInput::TouchScreenPress(*x, *y),
            StreamDeckInput::TouchScreenLongPress(x, y) => StreamDeckInput::TouchScreenLongPress(*x, *y),
            StreamDeckInput::TouchScreenSwipe(a, b) => StreamDeckInput::TouchScreenSwipe(*a, *b),
        }
    }
}

impl View for StreamDeckInput {
    type V = InputSnapshot;

    open spec fn view(&self) -> InputSnapshot {
        match self {
            StreamDeckInput::NoData => InputSnapshot::NoData,
            StreamDeckInput::ButtonStateChange(v) => InputSnapshot::Buttons(v@),
            StreamDeckInput::EncoderStateChange(v) => InputSnapshot::Encoders(v@),
            StreamDeckInput::EncoderTwist(v) => InputSnapshot::Twist(v@),
            StreamDeckInput::TouchScreenPress(x, y) => InputSnapshot::Press(*x, *y),
            StreamDeckInput::TouchScreenLongPress(x, y) => InputSnapshot::LongPress(*x, *y),
            StreamDeckInput::TouchScreenSwipe(a, b) => InputSnapshot::Swipe(*a, *b),
        }
    }
}

impl StreamDeckInput {
    /// Checks if there's data received or not
    pub fn is_empty(&self) -> (r: bool)
        ensures
            r == (*self is NoData),
    {
        matches!(self, StreamDeckInput::NoData)
    }
}

/// Errors that can occur while working with Stream Decks
#[derive(Clone, Copy, Debug, PartialEq, Eq, Structural)]
pub enum StreamDeckError {
    /// Failed to convert bytes into string
    Utf8Error,
    /// Reader mutex was poisoned
    PoisonError,
    /// There's literally nowhere to write the image
    NoScreen,
    /// Key index is invalid
    InvalidKeyIndex,
    /// Touch point index is invalid
    InvalidTouchPointIndex,
    /// Unrecognized Product ID
    UnrecognizedPID,
    /// The device doesn't support doing that
    UnsupportedOperation,
    /// Stream Deck sent unexpected data
    BadData,
    /// The image is over 16350 bytes for the first model, whose halves must each fit one report
    InvalidImageSize,
}

/// Image data that covers a rectangle of a screen
pub struct ImageRect {
    /// Width of the rectangle
    pub w: u16,
    /// Height of the rectangle
    pub h: u16,
    /// Encoded image data
    pub data: Vec<u8>,
}

/// An image waiting to be sent to a key
pub struct ImageCache {
    /// Key the image goes to
    pub key: u8,
    /// Encoded image data
    pub image_data: Vec<u8>,
}

/// Protocol state of one panel: its model and the key images not sent yet
pub struct StreamDeck {
    kind: Kind,
    image_cache: Vec<ImageCache>,
}

/// Header layout of the image reports for a key of a model (the key already checked).
pub open spec fn key_header(kind: Kind, key: u8) -> ReportHeader {
    match kind {
        Kind::Original => ReportHeader::KeyLegacyLarge(spec_flip_key_index(kind, key)),
        Kind::Mini | Kind::MiniMk2 | Kind::MiniMk2Module => ReportHeader::KeyLegacySmall(key),
        _ => ReportHeader::KeyModern(key),
    }
}

/// The reports that put `data` on key `key`, or why they cannot be made.
pub open spec fn key_transfer(kind: Kind, key: u8, data: Seq<u8>) -> Result<
    Seq<Seq<u8>>,
    StreamDeckError,
> {
    if key >= kind.spec_key_count() {
        Err(StreamDeckError::InvalidKeyIndex)
    } else if !kind.spec_is_visual() {
        Err(StreamDeckError::NoScreen)
    } else if !parameters_fit(
        key_parameters(kind, data.len() as usize),
        key_header(kind, key),
        data.len(),
    ) {
        Err(StreamDeckError::InvalidImageSize)
    } else {
        Ok(image_reports(data, key_parameters(kind, data.len() as usize), key_header(kind, key)))
    }
}

/// The reports of a list of pending images, in order; the first failure stops it.
pub open spec fn pending_transfer(kind: Kind, pending: Seq<(u8, Seq<u8>)>) -> Result<
    Seq<Seq<u8>>,
    StreamDeckError,
>
    decreases pending.len(),
{
    if pending.len() == 0 {
        Ok(Seq::empty())
    } else {
        match pending_transfer(kind, pending.drop_last()) {
            Err(e) => Err(e),
            Ok(acc) => match key_transfer(kind, pending.last().0, pending.last().1) {
                Err(e) => Err(e),
                Ok(r) => Ok(acc + r),
            },
        }
    }
}

/// Reports for the strip region of the model with encoders.
pub open spec fn region_parameters() -> WriteImageParameters {
    WriteImageParameters { image_report_length: 1024, image_report_payload_length: 1008 }
}

/// Reports for the screen of the strip-only model.
pub open spec fn fill_parameters() -> WriteImageParameters {
    WriteImageParameters { image_report_length: 1024, image_report_payload_length: 1016 }
}

/// The reports that fill the whole screen of a model, or why it has none to fill.
pub open spec fn fill_transfer(kind: Kind, data: Seq<u8>) -> Result<
    Seq<Seq<u8>>,
    StreamDeckError,
> {
    match kind {
        Kind::Neo => Ok(image_reports(data, fill_parameters(), ReportHeader::LcdFill)),
        Kind::Plus => Ok(
            image_reports(
                data,
                region_parameters(),
                ReportHeader::LcdRegion { x: 0, y: 0, w: 800, h: 100 },
            ),
        ),
        _ => Err(StreamDeckError::UnsupportedOperation),
    }
}

/// A report of `n` bytes: `prefix`, then zeros.
pub open spec fn padded(prefix: Seq<u8>, n: nat) -> Seq<u8> {
    prefix + Seq::new((n - prefix.len()) as nat, |i: int| 0u8)
}

/// The brightness that is sent: at most 100.
pub open spec fn clamp_percent(percent: u8) -> u8 {
    if percent > 100 {
        100
    } else {
        percent
    }
}

/// Feature report that sets the brightness.
pub open spec fn brightness_report(kind: Kind, percent: u8) -> Seq<u8> {
    if kind.is_legacy() {
        padded(seq![0x05u8, 0x55u8, 0xaau8, 0xd1u8, 0x01u8, clamp_percent(percent)], 17)
    } else {
        padded(seq![0x03u8, 0x08u8, clamp_percent(percent)], 32)
    }
}

/// Feature report that resets the device.
pub open spec fn reset_report(kind: Kind) -> Seq<u8> {
    if kind.is_legacy() {
        padded(seq![0x0bu8, 0x63u8], 17)
    } else {
        padded(seq![0x03u8, 0x02u8], 32)
    }
}

/// Builds `prefix` followed by zeros up to `n` bytes.
fn pad_report(prefix: Vec<u8>, n: usize) -> (r: Vec<u8>)
    requires
        prefix@.len() <= n,
    ensures
        r@ == padded(prefix@, n as nat),
{
    let mut buf = prefix;
    let ghost start = buf@;
    while buf.len() < n
        invariant
            start.len() <= buf@.len() <= n,
            buf@ == start + Seq::new((buf@.len() - start.len()) as nat, |i: int| 0u8),
        decreases n - buf.len(),
    {
        buf.push(0u8);
        assert(buf@ =~= start + Seq::new((buf@.len() - start.len()) as nat, |i: int| 0u8));
    }
    assert(buf@ =~= padded(start, n as nat));
    buf
}

impl StreamDeck {
    /// Model of the panel.
    pub closed spec fn spec_kind(&self) -> Kind {
        self.kind
    }

    /// Key images waiting to be sent, as (key, data), oldest first.
    pub closed spec fn pending(&self) -> Seq<(u8, Seq<u8>)> {
        self.image_cache@.map_values(|e: ImageCache| (e.key, e.image_data@))
    }

    /// Every queued image is for a key the model has: the queue holds only what
    /// `write_image` accepted.
    pub open spec fn wf(&self) -> bool {
        forall|i: int|
            0 <= i < self.pending().len() ==> (#[trigger] self.pending()[i]).0
                < self.spec_kind().spec_key_count()
    }

    /// Every queued image can be halved into reports of the model: always, but for the
    /// first model, whose images must be at most 16350 bytes.
    pub open spec fn fits_halves(&self) -> bool {
        self.spec_kind() == Kind::Original ==> forall|i: int|
            0 <= i < self.pending().len() ==> (#[trigger] self.pending()[i]).1.len() <= 16350
    }

    /// Protocol state for a freshly opened panel of the given model.
    pub fn new(kind: Kind) -> (r: StreamDeck)
        ensures
            r.spec_kind() == kind,
            r.pending() == Seq::<(u8, Seq<u8>)>::empty(),
            r.wf(),
    {
        let r = StreamDeck { kind, image_cache: Vec::new() };
        assert(r.pending() =~= Seq::<(u8, Seq<u8>)>::empty());
        r
    }

    /// Returns kind of the Stream Deck
    pub fn kind(&self) -> (r: Kind)
        ensures
            r == self.spec_kind(),
    {
        self.kind
    }

    /// Feature report that resets the device.
    pub fn reset(&self) -> (r: Vec<u8>)
        ensures
            r@ == reset_report(self.spec_kind()),
    {
        match self.kind {
            Kind::Original | Kind::Mini | Kind::MiniMk2 | Kind::MiniMk2Module => pad_report(
                vec![0x0B, 0x63],
                17,
            ),
            _ => pad_report(vec![0x03, 0x02], 32),
        }
    }

    /// Feature report that sets the brightness, value range is 0 - 100 (higher values count as 100).
    pub fn set_brightness(&self, percent: u8) -> (r: Vec<u8>)
        ensures
            r@ == brightness_report(self.spec_kind(), percent),
    {
        let percent: u8 = if percent > 100 {
            100
        } else {
            percent
        };
        match self.kind {
            Kind::Original | Kind::Mini | Kind::MiniMk2 | Kind::MiniMk2Module => pad_report(
                vec![0x05, 0x55, 0xaa, 0xd1, 0x01, percent],
                17,
            ),
            _ => pad_report(vec![0x03, 0x08, percent], 32),
        }
    }

    /// Whether an image of this length can go to a key: the key must exist, the model
    /// must show images, and the image must split the way the model expects.
    pub fn check_image(&self, key: u8, image_data: &[u8]) -> (r: Result<(), StreamDeckError>)
        ensures
            r is Ok <==> key_transfer(self.spec_kind(), key, image_data@) is Ok,
            r matches Err(e) ==> key_transfer(self.spec_kind(), key, image_data@) == Err::<
                Seq<Seq<u8>>,
                StreamDeckError,
            >(e),
    {
        if key >= self.kind.key_count() {
            return Err(StreamDeckError::InvalidKeyIndex);
        }
        if !self.kind.is_visual() {
            return Err(StreamDeckError::NoScreen);
        }
        let parameters = WriteImageParameters::for_key(self.kind, image_data.len());
        let header_length: usize = match self.kind {
            Kind::Original | Kind::Mini | Kind::MiniMk2 | Kind::MiniMk2Module => 16,
            _ => 8,
        };
        if image_data.len() > 0 && parameters.image_report_payload_length == 0 {
            return Err(StreamDeckError::InvalidImageSize);
        }
        if parameters.image_report_payload_length > parameters.image_report_length - header_length {
            return Err(StreamDeckError::InvalidImageSize);
        }
        Ok(())
    }

    /// The reports that put an image on a key, checking the key first.
    pub fn send_image(&self, key: u8, image_data: &[u8]) -> (r: Result<Vec<Vec<u8>>, StreamDeckError>)
        ensures
            match r {
                Ok(v) => key_transfer(self.spec_kind(), key, image_data@) == Ok::<
                    Seq<Seq<u8>>,
                    StreamDeckError,
                >(views(v@)),
                Err(e) => key_transfer(self.spec_kind(), key, image_data@) == Err::<
                    Seq<Seq<u8>>,
                    StreamDeckError,
                >(e),
            },
    {
        self.check_image(key, image_data)?;
        let key = if let Kind::Original = self.kind {
            flip_key_index(&self.kind, key)
        } else {
            key
        };
        let parameters = WriteImageParameters::for_key(self.kind, image_data.len());
        let header = match self.kind {
            Kind::Original => ReportHeader::KeyLegacyLarge(key),
            Kind::Mini | Kind::MiniMk2 | Kind::MiniMk2Module => ReportHeader::KeyLegacySmall(key),
            _ => ReportHeader::KeyModern(key),
        };
        Ok(image_data_reports(image_data, parameters, header))
    }

    /// Length of the input reports that the panel sends.
    pub fn input_report_length(&self) -> (r: usize)
        ensures
            r == input_report_len(self.spec_kind()),
    {
        input_report_length(&self.kind)
    }

    /// Decodes one input report that was read from the panel.
    pub fn read_input(&self, data: &[u8]) -> (r: Result<StreamDeckInput, StreamDeckError>)
        ensures
            match r {
                Ok(i) => decode_input(self.spec_kind(), data@) == Some(i@),
                Err(e) => decode_input(self.spec_kind(), data@) is None && e
                    == StreamDeckError::BadData,
            },
    {
        if data.len() < input_report_length(&self.kind) {
            return Err(StreamDeckError::BadData);
        }
        if data[0] == 0 {
            return Ok(StreamDeckInput::NoData);
        }
        match self.kind {
            Kind::Plus => {
                if data[1] == 0 {
                    Ok(StreamDeckInput::ButtonStateChange(read_button_states(&self.kind, data)))
                } else if data[1] == 2 {
                    match read_lcd_input(data) {
                        Some(i) => Ok(i),
                        None => Err(StreamDeckError::BadData),
                    }
                } else if data[1] == 3 {
                    match read_encoder_input(&self.kind, data) {
                        Some(i) => Ok(i),
                        None => Err(StreamDeckError::BadData),
                    }
                } else {
                    Err(StreamDeckError::BadData)
                }
            },
            _ => Ok(StreamDeckInput::ButtonStateChange(read_button_states(&self.kind, data))),
        }
    }

    /// The reports that write an image to a region of the touch strip; only the model
    /// with encoders has one.
    pub fn write_lcd(&self, x: u16, y: u16, rect: &ImageRect) -> (r: Result<
        Vec<Vec<u8>>,
        StreamDeckError,
    >)
        ensures
            match r {
                Ok(v) => self.spec_kind() == Kind::Plus && views(v@) == image_reports(
                    rect.data@,
                    region_parameters(),
                    ReportHeader::LcdRegion { x, y, w: rect.w, h: rect.h },
                ),
                Err(e) => self.spec_kind() != Kind::Plus && e == StreamDeckError::UnsupportedOperation,
            },
    {
        match self.kind {
            Kind::Plus => (),
            _ => return Err(StreamDeckError::UnsupportedOperation),
        }
        Ok(
            image_data_reports(
                rect.data.as_slice(),
                WriteImageParameters { image_report_length: 1024, image_report_payload_length: 1008 },
                ReportHeader::LcdRegion { x, y, w: rect.w, h: rect.h },
            ),
        )
    }

    /// The reports that fill the whole screen or strip with an image.
    pub fn write_lcd_fill(&self, image_data: &[u8]) -> (r: Result<Vec<Vec<u8>>, StreamDeckError>)
        ensures
            match r {
                Ok(v) => fill_transfer(self.spec_kind(), image_data@) == Ok::<
                    Seq<Seq<u8>>,
                    StreamDeckError,
                >(views(v@)),
                Err(e) => fill_transfer(self.spec_kind(), image_data@) == Err::<
                    Seq<Seq<u8>>,
                    StreamDeckError,
                >(e),
            },
    {
        match self.kind {
            Kind::Neo => Ok(
                image_data_reports(
                    image_data,
                    WriteImageParameters { image_report_length: 1024, image_report_payload_length: 1016 },
                    ReportHeader::LcdFill,
                ),
            ),
            Kind::Plus => {
                let size = self.kind.lcd_strip_size();
                let (w, h) = match size {
                    Some(s) => s,
                    None => (0, 0),
                };
                Ok(
                    image_data_reports(
                        image_data,
                        WriteImageParameters {
                            image_report_length: 1024,
                            image_report_payload_length: 1008,
                        },
                        ReportHeader::LcdRegion { x: 0, y: 0, w: w as u16, h: h as u16 },
                    ),
                )
            },
            _ => Err(StreamDeckError::UnsupportedOperation),
        }
    }

    /// Queues the model's blank image for a key; it is sent by the next `flush`.
    pub fn clear_button_image(&mut self, key: u8, blank_image: &[u8]) -> (r: Result<
        (),
        StreamDeckError,
    >)
        ensures
            final(self).spec_kind() == old(self).spec_kind(),
            old(self).wf() ==> final(self).wf(),
            match r {
                Ok(()) => {
                    &&& key < old(self).spec_kind().spec_key_count()
                    &&& final(self).pending() == old(self).pending().push((key, blank_image@))
                },
                Err(e) => {
                    &&& key >= old(self).spec_kind().spec_key_count()
                    &&& e == StreamDeckError::InvalidKeyIndex
                    &&& final(self).pending() == old(self).pending()
                },
            },
    {
        self.write_image(key, blank_image)
    }

    /// Queues the model's blank image for every key, key 0 first; they are sent by the
    /// next `flush`.
    pub fn clear_all_button_images(&mut self, blank_image: &[u8]) -> (r: Result<
        (),
        StreamDeckError,
    >)
        ensures
            final(self).spec_kind() == old(self).spec_kind(),
            old(self).wf() ==> final(self).wf(),
            match r {
                Ok(()) => {
                    &&& key_transfer(old(self).spec_kind(), 0, blank_image@) is Ok
                    &&& final(self).pending() == old(self).pending() + Seq::new(
                        old(self).spec_kind().spec_key_count() as nat,
                        |i: int| (i as u8, blank_image@),
                    )
                },
                Err(e) => {
                    &&& key_transfer(old(self).spec_kind(), 0, blank_image@) == Err::<
                        Seq<Seq<u8>>,
                        StreamDeckError,
                    >(e)
                    &&& final(self).pending() == old(self).pending()
                },
            },
    {
        self.check_image(0, blank_image)?;
        let count = self.kind.key_count();
        let ghost start = self.pending();
        let ghost was_wf = self.wf();
        let mut i: u8 = 0;
        assert(start + Seq::new(0, |j: int| (j as u8, blank_image@)) =~= start);
        while i < count
            invariant
                i <= count,
                count == self.kind.spec_key_count(),
                self.kind == old(self).kind,
                start == old(self).pending(),
                was_wf == old(self).wf(),
                was_wf ==> self.wf(),
                key_transfer(self.kind, 0, blank_image@) is Ok,
                self.pending() == start + Seq::new(i as nat, |j: int| (j as u8, blank_image@)),
            decreases count - i,
        {
            match self.write_image(i, blank_image) {
                Ok(()) => {},
                Err(e) => {
                    proof {
                        assert(false);
                    }
                    return Err(e);
                },
            }
            assert(self.pending() =~= start + Seq::new((i + 1) as nat, |j: int| (j as u8, blank_image@)));
            i = i + 1;
        }
        Ok(())
    }

    /// Feature report that sets the color of a touch point's light.
    pub fn set_touchpoint_color(&self, point: u8, red: u8, green: u8, blue: u8) -> (r: Result<
        Vec<u8>,
        StreamDeckError,
    >)
        ensures
            match r {
                Ok(v) => point < self.spec_kind().spec_touchpoint_count() && v@ == seq![
                    0x03u8,
                    0x06u8,
                    (point + self.spec_kind().spec_key_count()) as u8,
                    red,
                    green,
                    blue,
                ],
                Err(e) => point >= self.spec_kind().spec_touchpoint_count() && e
                    == StreamDeckError::InvalidTouchPointIndex,
            },
    {
        if point >= self.kind.touchpoint_count() {
            return Err(StreamDeckError::InvalidTouchPointIndex);
        }
        let touchpoint_index: u8 = point + self.kind.key_count();
        let buf = vec![0x03, 0x06, touchpoint_index, red, green, blue];
        Ok(buf)
    }

    /// Feature report (id, length) that holds the serial number.
    pub fn serial_number_request(&self) -> (r: (u8, usize))
        ensures
            r == serial_field(self.spec_kind()).0,
    {
        match self.kind {
            Kind::Original | Kind::Mini => (0x03, 17),
            Kind::MiniMk2 | Kind::MiniMk2Module => (0x03, 32),
            _ => (0x06, 32),
        }
    }

    /// Decodes the serial number from its feature report.
    pub fn serial_number(&self, report: &[u8]) -> (r: Result<String, StreamDeckError>)
        ensures
            match r {
                Ok(s) => serial_text(self.spec_kind(), report@) == Ok::<Seq<char>, StreamDeckError>(
                    s@,
                ),
                Err(e) => serial_text(self.spec_kind(), report@) == Err::<
                    Seq<char>,
                    StreamDeckError,
                >(e),
            },
    {
        let offset: usize = match self.kind {
            Kind::Original | Kind::Mini | Kind::MiniMk2 | Kind::MiniMk2Module => 5,
            _ => 2,
        };
        if report.len() < offset {
            return Err(StreamDeckError::BadData);
        }
        let field = copy_from(report, offset);
        match extract_str(field.as_slice()) {
            Some(s) => Ok(remove_char(s.as_str(), '\u{1}')),
            None => Err(StreamDeckError::Utf8Error),
        }
    }

    /// Feature report (id, length) that holds the firmware version.
    pub fn firmware_version_request(&self) -> (r: (u8, usize))
        ensures
            r == firmware_field(self.spec_kind()).0,
    {
        match self.kind {
            Kind::Original | Kind::Mini | Kind::MiniMk2 => (0x04, 17),
            Kind::MiniMk2Module => (0xA1, 17),
            _ => (0x05, 32),
        }
    }

    /// Decodes the firmware version from its feature report.
    pub fn firmware_version(&self, report: &[u8]) -> (r: Result<String, StreamDeckError>)
        ensures
            match r {
                Ok(s) => firmware_text(self.spec_kind(), report@) == Ok::<
                    Seq<char>,
                    StreamDeckError,
                >(s@),
                Err(e) => firmware_text(self.spec_kind(), report@) == Err::<
                    Seq<char>,
                    StreamDeckError,
                >(e),
            },
    {
        let offset: usize = match self.kind {
            Kind::Original | Kind::Mini | Kind::MiniMk2 | Kind::MiniMk2Module => 5,
            _ => 6,
        };
        if report.len() < offset {
            return Err(StreamDeckError::BadData);
        }
        let field = copy_from(report, offset);
        match extract_str(field.as_slice()) {
            Some(s) => Ok(remove_char(s.as_str(), '\u{1}')),
            None => Err(StreamDeckError::Utf8Error),
        }
    }

    /// Returns button state reader for this device
    pub fn get_reader(&self) -> (r: DeviceStateReader)
        ensures
            r.spec_kind() == self.spec_kind(),
            r.buttons() == Seq::new(
                (self.spec_kind().spec_key_count() + self.spec_kind().spec_touchpoint_count()) as nat,
                |i: int| false,
            ),
            r.encoders() == Seq::new(self.spec_kind().spec_encoder_count() as nat, |i: int| false),
    {
        DeviceStateReader::new(self.kind)
    }

    /// Queues an image for a key; it is sent by the next `flush`. A key the model does not
    /// have is refused and nothing is queued; whether the image can be sent is decided at
    /// `flush`.
    pub fn write_image(&mut self, key: u8, image_data: &[u8]) -> (r: Result<(), StreamDeckError>)
        ensures
            final(self).spec_kind() == old(self).spec_kind(),
            old(self).wf() ==> final(self).wf(),
            match r {
                Ok(()) => {
                    &&& key < old(self).spec_kind().spec_key_count()
                    &&& final(self).pending() == old(self).pending().push((key, image_data@))
                },
                Err(e) => {
                    &&& key >= old(self).spec_kind().spec_key_count()
                    &&& e == StreamDeckError::InvalidKeyIndex
                    &&& final(self).pending() == old(self).pending()
                },
            },
    {
        if key >= self.kind.key_count() {
            return Err(StreamDeckError::InvalidKeyIndex);
        }
        let mut data: Vec<u8> = Vec::new();
        let mut i: usize = 0;
        while i < image_data.len()
            invariant
                i <= image_data@.len(),
                data@ == image_data@.take(i as int),
            decreases image_data@.len() - i,
        {
            data.push(image_data[i]);
            assert(image_data@.take(i + 1) =~= image_data@.take(i as int).push(image_data@[i as int]));
            i = i + 1;
        }
        assert(image_data@.take(i as int) =~= image_data@);
        self.image_cache.push(ImageCache { key, image_data: data });
        assert(self.pending() =~= old(self).pending().push((key, image_data@)));
        Ok(())
    }

    /// The reports of every queued image, in the order they were queued.
    pub fn pending_reports(&self) -> (r: Result<Vec<Vec<u8>>, StreamDeckError>)
        ensures
            self.wf() && self.spec_kind().spec_is_visual() && self.fits_halves() ==> r is Ok,
            match r {
                Ok(v) => pending_transfer(self.spec_kind(), self.pending()) == Ok::<
                    Seq<Seq<u8>>,
                    StreamDeckError,
                >(views(v@)),
                Err(e) => pending_transfer(self.spec_kind(), self.pending()) == Err::<
                    Seq<Seq<u8>>,
                    StreamDeckError,
                >(e),
            },
    {
        let mut out: Vec<Vec<u8>> = Vec::new();
        let mut i: usize = 0;
        assert(self.pending().take(0) =~= Seq::<(u8, Seq<u8>)>::empty());
        assert(views(out@) =~= Seq::<Seq<u8>>::empty());
        while i < self.image_cache.len()
            invariant
                i <= self.image_cache@.len(),
                pending_transfer(self.kind, self.pending().take(i as int)) == Ok::<
                    Seq<Seq<u8>>,
                    StreamDeckError,
                >(views(out@)),
            decreases self.image_cache@.len() - i,
        {
            let entry = &self.image_cache[i];
            let ghost prefix = self.pending().take(i + 1);
            assert(prefix.drop_last() =~= self.pending().take(i as int));
            assert(prefix.last() == (entry.key, entry.image_data@));
            match self.send_image(entry.key, entry.image_data.as_slice()) {
                Ok(reports) => {
                    let ghost before = out@;
                    let ghost added = reports@;
                    let mut reports = reports;
                    out.append(&mut reports);
                    assert(views(out@) =~= views(before) + views(added));
                },
                Err(e) => {
                    proof {
                        lemma_pending_error(self.kind, self.pending(), (i + 1) as int);
                        if self.wf() && self.kind.spec_is_visual() && self.fits_halves() {
                            assert(self.pending()[i as int] == (entry.key, entry.image_data@));
                            assert(entry.key < self.kind.spec_key_count());
                            assert(entry.image_data@.len() <= 16350);
                        }
                    }
                    assert(self.pending().take(self.pending().len() as int) =~= self.pending());
                    return Err(e);
                },
            }
            i = i + 1;
        }
        assert(self.pending().take(i as int) =~= self.pending());
        Ok(out)
    }

    /// Drops every queued image.
    pub fn clear_image_cache(&mut self)
        ensures
            final(self).spec_kind() == old(self).spec_kind(),
            final(self).pending() == Seq::<(u8, Seq<u8>)>::empty(),
            final(self).wf(),
    {
        self.image_cache.clear();
        assert(self.pending() =~= Seq::<(u8, Seq<u8>)>::empty());
    }

    /// Takes the reports of every queued image, oldest first, and empties the queue.
    /// Where an image cannot be sent (a model without screens, an image too long for
    /// the first model), its error comes back, nothing is sent and the queue stays.
    pub fn flush(&mut self) -> (r: Result<Vec<Vec<u8>>, StreamDeckError>)
        ensures
            final(self).spec_kind() == old(self).spec_kind(),
            old(self).wf() && old(self).spec_kind().spec_is_visual() && old(self).fits_halves()
                ==> r is Ok,
            old(self).wf() ==> final(self).wf(),
            match r {
                Ok(v) => {
                    &&& pending_transfer(old(self).spec_kind(), old(self).pending()) == Ok::<
                        Seq<Seq<u8>>,
                        StreamDeckError,
                    >(views(v@))
                    &&& final(self).pending() == Seq::<(u8, Seq<u8>)>::empty()
                },
                Err(e) => {
                    &&& pending_transfer(old(self).spec_kind(), old(self).pending()) == Err::<
                        Seq<Seq<u8>>,
                        StreamDeckError,
                    >(e)
                    &&& final(self).pending() == old(self).pending()
                },
            },
    {
        if self.image_cache.len() == 0 {
            assert(self.pending() =~= Seq::<(u8, Seq<u8>)>::empty());
            let none: Vec<Vec<u8>> = Vec::new();
            assert(views(none@) =~= Seq::<Seq<u8>>::empty());
            return Ok(none);
        }
        let reports = self.pending_reports()?;
        self.clear_image_cache();
        Ok(reports)
    }
}

/// Feature report (id, length) of the serial number, and where its text starts.
pub open spec fn serial_field(kind: Kind) -> ((u8, usize), nat) {
    match kind {
        Kind::Original | Kind::Mini => ((0x03u8, 17usize), 5),
        Kind::MiniMk2 | Kind::MiniMk2Module => ((0x03u8, 32usize), 5),
        _ => ((0x06u8, 32usize), 2),
    }
}

/// Feature report (id, length) of the firmware version, and where its text starts.
pub open spec fn firmware_field(kind: Kind) -> ((u8, usize), nat) {
    match kind {
        Kind::Original | Kind::Mini | Kind::MiniMk2 => ((0x04u8, 17usize), 5),
        Kind::MiniMk2Module => ((0xa1u8, 17usize), 5),
        _ => ((0x05u8, 32usize), 6),
    }
}

/// The serial number in a feature report: its text without 0x01 characters.
pub open spec fn serial_text(kind: Kind, report: Seq<u8>) -> Result<Seq<char>, StreamDeckError> {
    let off = serial_field(kind).1;
    if report.len() < off {
        Err(StreamDeckError::BadData)
    } else {
        match text_of(report.skip(off as int)) {
            Some(cs) => Ok(cs.filter(|x: char| x != '\u{1}')),
            None => Err(StreamDeckError::Utf8Error),
        }
    }
}

/// The firmware version in a feature report: its text without 0x01 characters.
pub open spec fn firmware_text(kind: Kind, report: Seq<u8>) -> Result<Seq<char>, StreamDeckError> {
    let off = firmware_field(kind).1;
    if report.len() < off {
        Err(StreamDeckError::BadData)
    } else {
        match text_of(report.skip(off as int)) {
            Some(cs) => Ok(cs.filter(|x: char| x != '\u{1}')),
            None => Err(StreamDeckError::Utf8Error),
        }
    }
}

/// Tells what changed in button states
#[derive(Copy, Debug, Hash, PartialEq, Eq)]
pub enum DeviceStateUpdate {
    /// Button got pressed down
    ButtonDown(u8),
    /// Button got released
    ButtonUp(u8),
    /// Encoder got pressed down
    EncoderDown(u8),
    /// Encoder was released from being pressed down
    EncoderUp(u8),
    /// Encoder was twisted
    EncoderTwist(u8, i8),
    /// Touch Point got pressed down
    TouchPointDown(u8),
    /// Touch Point got released
    TouchPointUp(u8),
    /// Touch screen received short press
    TouchScreenPress(u16, u16),
    /// Touch screen received long press
    TouchScreenLongPress(u16, u16),
    /// Touch screen received a swipe
    TouchScreenSwipe((u16, u16), (u16, u16)),
}

impl Clone for DeviceStateUpdate {
    fn clone(&self) -> (r: Self)
        ensures
            r == *self,
    {
        *self
    }
}

/// The event for position `i` of the button vector turning to `pressed`: keys first,
/// then touch points counted from zero.
pub open spec fn button_event(key_count: u8, i: int, pressed: bool) -> DeviceStateUpdate {
    if i < key_count {
        if pressed {
            DeviceStateUpdate::ButtonDown(i as u8)
        } else {
            DeviceStateUpdate::ButtonUp(i as u8)
        }
    } else if pressed {
        DeviceStateUpdate::TouchPointDown((i - key_count) as u8)
    } else {
        DeviceStateUpdate::TouchPointUp((i - key_count) as u8)
    }
}

/// The event for encoder `i` turning to `pressed`.
pub open spec fn encoder_event(i: int, pressed: bool) -> DeviceStateUpdate {
    if pressed {
        DeviceStateUpdate::EncoderDown(i as u8)
    } else {
        DeviceStateUpdate::EncoderUp(i as u8)
    }
}

/// Events for the first `n` positions where the new button vector differs from the stored one.
pub open spec fn button_events(key_count: u8, theirs: Seq<bool>, mine: Seq<bool>, n: nat) -> Seq<
    DeviceStateUpdate,
>
    decreases n,
{
    if n == 0 {
        Seq::empty()
    } else {
        let i = n - 1;
        button_events(key_count, theirs, mine, i as nat) + if theirs[i] != mine[i] {
            seq![button_event(key_count, i, theirs[i])]
        } else {
            Seq::empty()
        }
    }
}

/// Events for the first `n` encoders whose pressed state changed.
pub open spec fn encoder_events(theirs: Seq<bool>, mine: Seq<bool>, n: nat) -> Seq<
    DeviceStateUpdate,
>
    decreases n,
{
    if n == 0 {
        Seq::empty()
    } else {
        let i = n - 1;
        encoder_events(theirs, mine, i as nat) + if theirs[i] != mine[i] {
            seq![encoder_event(i, theirs[i])]
        } else {
            Seq::empty()
        }
    }
}

/// Events for the first `n` encoders that moved.
pub open spec fn twist_events(deltas: Seq<i8>, n: nat) -> Seq<DeviceStateUpdate>
    decreases n,
{
    if n == 0 {
        Seq::empty()
    } else {
        let i = n - 1;
        twist_events(deltas, i as nat) + if deltas[i] != 0 {
            seq![DeviceStateUpdate::EncoderTwist(i as u8, deltas[i])]
        } else {
            Seq::empty()
        }
    }
}

/// The shorter of two lengths.
pub open spec fn min_len(a: nat, b: nat) -> nat {
    if a < b {
        a
    } else {
        b
    }
}

/// Whether every index of the snapshot fits in an event (at most 256 positions).
pub open spec fn snapshot_fits(s: InputSnapshot) -> bool {
    match s {
        InputSnapshot::Buttons(v) => v.len() <= 256,
        InputSnapshot::Encoders(v) => v.len() <= 256,
        InputSnapshot::Twist(v) => v.len() <= 256,
        _ => true,
    }
}

/// Last known pressed states
pub struct DeviceState {
    /// Buttons include Touch Points state
    pub buttons: Vec<bool>,
    /// Encoders' pressed states
    pub encoders: Vec<bool>,
}

/// Button reader that keeps state of the Stream Deck and returns events instead of full states
pub struct DeviceStateReader {
    kind: Kind,
    states: DeviceState,
}

impl DeviceStateReader {
    /// Model of the panel read.
    pub closed spec fn spec_kind(&self) -> Kind {
        self.kind
    }

    /// Last known button vector (keys, then touch points).
    pub closed spec fn buttons(&self) -> Seq<bool> {
        self.states.buttons@
    }

    /// Last known encoder pressed states.
    pub closed spec fn encoders(&self) -> Seq<bool> {
        self.states.encoders@
    }

    /// A reader for a model that has seen nothing pressed yet.
    pub fn new(kind: Kind) -> (r: DeviceStateReader)
        ensures
            r.spec_kind() == kind,
            r.buttons() == Seq::new(
                (kind.spec_key_count() + kind.spec_touchpoint_count()) as nat,
                |i: int| false,
            ),
            r.encoders() == Seq::new(kind.spec_encoder_count() as nat, |i: int| false),
    {
        let nb = kind.key_count() as usize + kind.touchpoint_count() as usize;
        let ne = kind.encoder_count() as usize;
        let r = DeviceStateReader {
            kind,
            states: DeviceState { buttons: falses(nb), encoders: falses(ne) },
        };
        r
    }

    /// Turns a decoded report into the events it brings, and remembers the new pressed
    /// states of buttons or encoders.
    pub fn read(&mut self, input: StreamDeckInput) -> (r: Vec<DeviceStateUpdate>)
        requires
            snapshot_fits(input@),
        ensures
            final(self).spec_kind() == old(self).spec_kind(),
            match input@ {
                InputSnapshot::Buttons(v) => {
                    &&& r@ == button_events(
                        old(self).spec_kind().spec_key_count(),
                        v,
                        old(self).buttons(),
                        min_len(v.len(), old(self).buttons().len()),
                    )
                    &&& final(self).buttons() == v
                    &&& final(self).encoders() == old(self).encoders()
                },
                InputSnapshot::Encoders(v) => {
                    &&& r@ == encoder_events(
                        v,
                        old(self).encoders(),
                        min_len(v.len(), old(self).encoders().len()),
                    )
                    &&& final(self).encoders() == v
                    &&& final(self).buttons() == old(self).buttons()
                },
                _ => {
                    &&& final(self).buttons() == old(self).buttons()
                    &&& final(self).encoders() == old(self).encoders()
                    &&& r@ == match input@ {
                        InputSnapshot::Twist(d) => twist_events(d, d.len()),
                        InputSnapshot::Press(x, y) => seq![DeviceStateUpdate::TouchScreenPress(x, y)],
                        InputSnapshot::LongPress(x, y) => seq![
                            DeviceStateUpdate::TouchScreenLongPress(x, y),
                        ],
                        InputSnapshot::Swipe(a, b) => seq![DeviceStateUpdate::TouchScreenSwipe(a, b)],
                        _ => Seq::empty(),
                    }
                },
            },
    {
        let mut updates: Vec<DeviceStateUpdate> = Vec::new();
        match input {
            StreamDeckInput::ButtonStateChange(buttons) => {
                let key_count = self.kind.key_count();
                let n = if buttons.len() < self.states.buttons.len() {
                    buttons.len()
                } else {
                    self.states.buttons.len()
                };
                let mut index: usize = 0;
                while index < n
                    invariant
                        index <= n,
                        n <= buttons@.len(),
                        n <= self.states.buttons@.len(),
                        buttons@.len() <= 256,
                        key_count == self.kind.spec_key_count(),
                        updates@ == button_events(
                            key_count,
                            buttons@,
                            self.states.buttons@,
                            index as nat,
                        ),
                    decreases n - index,
                {
                    let their = buttons[index];
                    if their != self.states.buttons[index] {
                        let event = if index < key_count as usize {
                            if their {
                                DeviceStateUpdate::ButtonDown(index as u8)
                            } else {
                                DeviceStateUpdate::ButtonUp(index as u8)
                            }
                        } else if their {
                            DeviceStateUpdate::TouchPointDown(index as u8 - key_count)
                        } else {
                            DeviceStateUpdate::TouchPointUp(index as u8 - key_count)
                        };
                        updates.push(event);
                    }
                    index = index + 1;
                }
                self.states.buttons = buttons;
            },
            StreamDeckInput::EncoderStateChange(encoders) => {
                let n = if encoders.len() < self.states.encoders.len() {
                    encoders.len()
                } else {
                    self.states.encoders.len()
                };
                let mut index: usize = 0;
                while index < n
                    invariant
                        index <= n,
                        n <= encoders@.len(),
                        n <= self.states.encoders@.len(),
                        encoders@.len() <= 256,
                        updates@ == encoder_events(encoders@, self.states.encoders@, index as nat),
                    decreases n - index,
                {
                    let their = encoders[index];
                    if their != self.states.encoders[index] {
                        if their {
                            updates.push(DeviceStateUpdate::EncoderDown(index as u8));
                        } else {
                            updates.push(DeviceStateUpdate::EncoderUp(index as u8));
                        }
                    }
                    index = index + 1;
                }
                self.states.encoders = encoders;
            },
            StreamDeckInput::EncoderTwist(twist) => {
                let mut index: usize = 0;
                while index < twist.len()
                    invariant
                        index <= twist@.len(),
                        twist@.len() <= 256,
                        updates@ == twist_events(twist@, index as nat),
                    decreases twist@.len() - index,
                {
                    let change = twist[index];
                    if change != 0 {
                        updates.push(DeviceStateUpdate::EncoderTwist(index as u8, change));
                    }
                    index = index + 1;
                }
            },
            StreamDeckInput::TouchScreenPress(x, y) => {
                updates.push(DeviceStateUpdate::TouchScreenPress(x, y));
            },
            StreamDeckInput::TouchScreenLongPress(x, y) => {
                updates.push(DeviceStateUpdate::TouchScreenLongPress(x, y));
            },
            StreamDeckInput::TouchScreenSwipe(s, e) => {
                updates.push(DeviceStateUpdate::TouchScreenSwipe(s, e));
            },
            StreamDeckInput::NoData => {},
        }
        updates
    }
}

/// A vector of `n` false values.
fn falses(n: usize) -> (r: Vec<bool>)
    ensures
        r@ == Seq::new(n as nat, |i: int| false),
{
    let mut v: Vec<bool> = Vec::new();
    let mut i: usize = 0;
    while i < n
        invariant
            i <= n,
            v@ =~= Seq::new(i as nat, |j: int| false),
        decreases n - i,
    {
        v.push(false);
        i = i + 1;
    }
    v
}

/// A key index at or past the key count is refused before any report is made.
pub proof fn lemma_invalid_key(kind: Kind, key: u8, data: Seq<u8>)
    requires
        key >= kind.spec_key_count(),
    ensures
        key_transfer(kind, key, data) == Err::<Seq<Seq<u8>>, StreamDeckError>(
            StreamDeckError::InvalidKeyIndex,
        ),
{
}

/// Any brightness of 100 or more is sent as 100.
pub proof fn lemma_brightness_clamp(kind: Kind, percent: u8)
    requires
        percent >= 100,
    ensures
        brightness_report(kind, percent) == brightness_report(kind, 100),
{
}

/// A model without a screen strip refuses screen writes.
pub proof fn lemma_fill_unsupported(kind: Kind, data: Seq<u8>)
    requires
        kind.spec_lcd_strip_size() is None,
    ensures
        fill_transfer(kind, data) == Err::<Seq<Seq<u8>>, StreamDeckError>(
            StreamDeckError::UnsupportedOperation,
        ),
{
}

/// Where two button vectors agree on their first `n` positions, they give no event there.
proof fn lemma_no_button_events(key_count: u8, theirs: Seq<bool>, mine: Seq<bool>, n: nat)
    requires
        n <= theirs.len(),
        n <= mine.len(),
        forall|i: int| 0 <= i < n ==> theirs[i] == mine[i],
    ensures
        button_events(key_count, theirs, mine, n) == Seq::<DeviceStateUpdate>::empty(),
    decreases n,
{
    if n > 0 {
        lemma_no_button_events(key_count, theirs, mine, (n - 1) as nat);
        assert(button_events(key_count, theirs, mine, n) =~= Seq::<DeviceStateUpdate>::empty());
    }
}

/// Where two encoder vectors agree on their first `n` positions, they give no event there.
proof fn lemma_no_encoder_events(theirs: Seq<bool>, mine: Seq<bool>, n: nat)
    requires
        n <= theirs.len(),
        n <= mine.len(),
        forall|i: int| 0 <= i < n ==> theirs[i] == mine[i],
    ensures
        encoder_events(theirs, mine, n) == Seq::<DeviceStateUpdate>::empty(),
    decreases n,
{
    if n > 0 {
        lemma_no_encoder_events(theirs, mine, (n - 1) as nat);
        assert(encoder_events(theirs, mine, n) =~= Seq::<DeviceStateUpdate>::empty());
    }
}

/// Reading the same button or encoder vector twice in a row: after the first read it is
/// the stored one, and the second read then gives no event.
pub proof fn lemma_differ_idempotent(key_count: u8, v: Seq<bool>)
    ensures
        button_events(key_count, v, v, min_len(v.len(), v.len())) == Seq::<DeviceStateUpdate>::empty(),
        encoder_events(v, v, min_len(v.len(), v.len())) == Seq::<DeviceStateUpdate>::empty(),
{
    lemma_no_button_events(key_count, v, v, v.len());
    lemma_no_encoder_events(v, v, v.len());
}

/// The position just past the keys is touch point 0: a change there alone gives one
/// touch point event for point 0, and no button event.
pub proof fn lemma_touch_point_offset(key_count: u8, theirs: Seq<bool>, mine: Seq<bool>)
    requires
        key_count < theirs.len(),
        theirs.len() == mine.len(),
        theirs.len() <= 256,
        theirs[key_count as int] != mine[key_count as int],
        forall|i: int| 0 <= i < theirs.len() && i != key_count ==> theirs[i] == mine[i],
    ensures
        button_events(key_count, theirs, mine, theirs.len()) == seq![
            if theirs[key_count as int] {
                DeviceStateUpdate::TouchPointDown(0)
            } else {
                DeviceStateUpdate::TouchPointUp(0)
            },
        ],
{
    let k = key_count as nat;
    lemma_no_button_events(key_count, theirs, mine, k);
    assert(button_events(key_count, theirs, mine, k + 1) =~= seq![
        button_event(key_count, k as int, theirs[k as int]),
    ]);
    lemma_events_unchanged_after(key_count, theirs, mine, k + 1, theirs.len());
}

/// Positions that agree add no event past `from`.
proof fn lemma_events_unchanged_after(
    key_count: u8,
    theirs: Seq<bool>,
    mine: Seq<bool>,
    from: nat,
    n: nat,
)
    requires
        from <= n <= theirs.len(),
        n <= mine.len(),
        forall|i: int| from <= i < n ==> theirs[i] == mine[i],
    ensures
        button_events(key_count, theirs, mine, n) == button_events(key_count, theirs, mine, from),
    decreases n,
{
    if n > from {
        lemma_events_unchanged_after(key_count, theirs, mine, from, (n - 1) as nat);
        assert(button_events(key_count, theirs, mine, n) =~= button_events(
            key_count,
            theirs,
            mine,
            (n - 1) as nat,
        ));
    }
}

/// The first model sends an image of at least two bytes, that fits a report when
/// halved, in exactly two reports.
pub proof fn lemma_original_two_reports(key: u8, data: Seq<u8>)
    requires
        key < 15,
        data.len() >= 2,
        (data.len() + 1) / 2 + 16 <= 8191,
    ensures
        key_transfer(Kind::Original, key, data) is Ok,
        key_transfer(Kind::Original, key, data)->Ok_0.len() == 2,
{
    crate::transfer::lemma_halves(data);
}

/// Queuing one more image puts its reports after those of every image queued before it;
/// an earlier image for the same key is still sent, first.
pub proof fn lemma_flush_appends(kind: Kind, pending: Seq<(u8, Seq<u8>)>, key: u8, data: Seq<u8>)
    requires
        pending_transfer(kind, pending) is Ok,
        key_transfer(kind, key, data) is Ok,
    ensures
        pending_transfer(kind, pending.push((key, data))) == Ok::<Seq<Seq<u8>>, StreamDeckError>(
            pending_transfer(kind, pending)->Ok_0 + key_transfer(kind, key, data)->Ok_0,
        ),
{
    assert(pending.push((key, data)).drop_last() =~= pending);
}

/// Once an image of the queue fails, the whole queue fails the same way.
proof fn lemma_pending_error(kind: Kind, pending: Seq<(u8, Seq<u8>)>, n: int)
    requires
        0 < n <= pending.len(),
        pending_transfer(kind, pending.take(n)) is Err,
    ensures
        pending_transfer(kind, pending) == pending_transfer(kind, pending.take(n)),
    decreases pending.len() - n,
{
    if n < pending.len() {
        let next = pending.take(n + 1);
        assert(next.drop_last() =~= pending.take(n));
        lemma_pending_error(kind, pending, n + 1);
    } else {
        assert(pending.take(n) =~= pending);
    }
}

} // verus!
