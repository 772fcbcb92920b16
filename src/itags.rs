use vstd::prelude::*;
use crate::format::Container;

verus! {

/// What is known in advance of a format identifier: its container, picture height
/// (0 without video), nominal bitrate and audio bitrate (0 without audio).
#[derive(Clone, Copy, Debug, PartialEq, Eq, Structural)]
pub struct ItagMeta {
    pub container: Container,
    pub height: u64,
    pub bitrate: u64,
    pub audio_bitrate: u64,
}

/// The built-in table of format identifiers.
pub open spec fn itag_meta(itag: u64) -> Option<ItagMeta> {
    let m = |c: Container, h: u64, b: u64, a: u64|
        Some(ItagMeta { container: c, height: h, bitrate: b, audio_bitrate: a });
    match itag {
        5 => m(Container::Flv, 240, 250000, 64),
        17 => m(Container::ThreeGp, 144, 50000, 24),
        18 => m(Container::Mp4, 360, 500000, 96),
        22 => m(Container::Mp4, 720, 2000000, 192),
        36 => m(Container::ThreeGp, 240, 175000, 32),
        43 => m(Container::Webm, 360, 500000, 128),
        91 => m(Container::Ts, 144, 100000, 48),
        92 => m(Container::Ts, 240, 150000, 48),
        93 => m(Container::Ts, 360, 500000, 128),
        94 => m(Container::Ts, 480, 800000, 128),
        95 => m(Container::Ts, 720, 1500000, 256),
        96 => m(Container::Ts, 1080, 2500000, 256),
        133 => m(Container::Mp4, 240, 300000, 0),
        134 => m(Container::Mp4, 360, 400000, 0),
        135 => m(Container::Mp4, 480, 500000, 0),
        136 => m(Container::Mp4, 720, 1000000, 0),
        137 => m(Container::Mp4, 1080, 2500000, 0),
        139 => m(Container::Mp4, 0, 0, 48),
        140 => m(Container::Mp4, 0, 0, 128),
        141 => m(Container::Mp4, 0, 0, 256),
        160 => m(Container::Mp4, 144, 100000, 0),
        242 => m(Container::Webm, 240, 100000, 0),
        243 => m(Container::Webm, 360, 250000, 0),
        244 => m(Container::Webm, 480, 500000, 0),
        247 => m(Container::Webm, 720, 700000, 0),
        248 => m(Container::Webm, 1080, 1500000, 0),
        249 => m(Container::Webm, 0, 0, 48),
        250 => m(Container::Webm, 0, 0, 64),
        251 => m(Container::Webm, 0, 0, 160),
        278 => m(Container::Webm, 144, 80000, 0),
        298 => m(Container::Mp4, 720, 3000000, 0),
        299 => m(Container::Mp4, 1080, 5500000, 0),
        _ => None,
    }
}

fn meta(c: Container, h: u64, b: u64, a: u64) -> (r: Option<ItagMeta>)
    ensures
        r == Some(ItagMeta { container: c, height: h, bitrate: b, audio_bitrate: a }),
{
    Some(ItagMeta { container: c, height: h, bitrate: b, audio_bitrate: a })
}

/// Looks a format identifier up in the built-in table.
pub fn lookup_itag(itag: u64) -> (r: Option<ItagMeta>)
    ensures
        r == itag_meta(itag),
{
    match itag {
        5 => meta(Container::Flv, 240, 250000, 64),
        17 => meta(Container::ThreeGp, 144, 50000, 24),
        18 => meta(Container::Mp4, 360, 500000, 96),
        22 => meta(Container::Mp4, 720, 2000000, 192),
        36 => meta(Container::ThreeGp, 240, 175000, 32),
        43 => meta(Container::Webm, 360, 500000, 128),
        91 => meta(Container::Ts, 144, 100000, 48),
        92 => meta(Container::Ts, 240, 150000, 48),
        93 => meta(Container::Ts, 360, 500000, 128),
        94 => meta(Container::Ts, 480, 800000, 128),
        95 => meta(Container::Ts, 720, 1500000, 256),
        96 => meta(Container::Ts, 1080, 2500000, 256),
        133 => meta(Container::Mp4, 240, 300000, 0),
        134 => meta(Container::Mp4, 360, 400000, 0),
        135 => meta(Container::Mp4, 480, 500000, 0),
        136 => meta(Container::Mp4, 720, 1000000, 0),
        137 => meta(Container::Mp4, 1080, 2500000, 0),
        139 => meta(Container::Mp4, 0, 0, 48),
        140 => meta(Container::Mp4, 0, 0, 128),
        141 => meta(Container::Mp4, 0, 0, 256),
        160 => meta(Container::Mp4, 144, 100000, 0),
        242 => meta(Container::Webm, 240, 100000, 0),
        243 => meta(Container::Webm, 360, 250000, 0),
        244 => meta(Container::Webm, 480, 500000, 0),
        247 => meta(Container::Webm, 720, 700000, 0),
        248 => meta(Container::Webm, 1080, 1500000, 0),
        249 => meta(Container::Webm, 0, 0, 48),
        250 => meta(Container::Webm, 0, 0, 64),
        251 => meta(Container::Webm, 0, 0, 160),
        278 => meta(Container::Webm, 144, 80000, 0),
        298 => meta(Container::Mp4, 720, 3000000, 0),
        299 => meta(Container::Mp4, 1080, 5500000, 0),
        _ => None,
    }
}

} // verus!
