//! What the JavaScript bindings decide: reading codec options and filters
//! given as strings, summarising descriptors, and the text of errors thrown
//! across the boundary.

use vstd::prelude::*;
use vstd::string::*;
use bytes::Bytes;
use crate::codec::{
    media_kind_name, sample_format_name, CodecCapabilities, CodecConfig, CodecDescriptor,
    MediaKind, SampleFormat, DECODE_BIT, ENCODE_BIT, HARDWARE_BIT, LOSSLESS_BIT,
};
use crate::error::{display_text, CodecError};
use crate::text::{decimal, names_equal, push_decimal};

verus! {

/// Largest channel count a config can hold.
pub const MAX_CONFIG_CHANNELS: u32 = 65535;

/// Every sample format has its own identifier.
pub proof fn lemma_sample_format_names_distinct(f: SampleFormat, g: SampleFormat)
    requires
        f != g,
    ensures
        sample_format_name(f) != sample_format_name(g),
{
    reveal_strlit("s16");
    reveal_strlit("s32");
    reveal_strlit("f32");
    reveal_strlit("f64");
    reveal_strlit("s16p");
    reveal_strlit("f32p");
    let a = sample_format_name(f);
    let b = sample_format_name(g);
    if a.len() == b.len() && a.len() == 3 {
        assert(a[0] != b[0] || a[1] != b[1]);
    } else if a.len() == b.len() {
        assert(a[0] != b[0]);
    }
}

/// Every media kind has its own identifier.
pub proof fn lemma_media_kind_names_distinct(k: MediaKind, l: MediaKind)
    requires
        k != l,
    ensures
        media_kind_name(k) != media_kind_name(l),
{
    reveal_strlit("audio");
    reveal_strlit("video");
    reveal_strlit("subtitle");
    let a = media_kind_name(k);
    let b = media_kind_name(l);
    if a.len() == b.len() {
        assert(a[0] != b[0]);
    }
}

/// The sample format whose identifier is `name` (`"s16"`, `"s32"`, `"f32"`,
/// `"f64"`, `"s16p"`, `"f32p"`), if any.
pub fn parse_sample_format(name: &str) -> (r: Option<SampleFormat>)
    ensures
        match r {
            Some(f) => sample_format_name(f) == name@,
            None => forall|f: SampleFormat| sample_format_name(f) != name@,
        },
{
    if names_equal(name, "s16") {
        Some(SampleFormat::S16)
    } else if names_equal(name, "s32") {
        Some(SampleFormat::S32)
    } else if names_equal(name, "f32") {
        Some(SampleFormat::F32)
    } else if names_equal(name, "f64") {
        Some(SampleFormat::F64)
    } else if names_equal(name, "s16p") {
        Some(SampleFormat::S16Planar)
    } else if names_equal(name, "f32p") {
        Some(SampleFormat::F32Planar)
    } else {
        None
    }
}

/// The media kind whose identifier is `name` (`"audio"`, `"video"`,
/// `"subtitle"`), if any.
pub fn parse_media_kind(name: &str) -> (r: Option<MediaKind>)
    ensures
        match r {
            Some(k) => media_kind_name(k) == name@,
            None => forall|k: MediaKind| media_kind_name(k) != name@,
        },
{
    if names_equal(name, "audio") {
        Some(MediaKind::Audio)
    } else if names_equal(name, "video") {
        Some(MediaKind::Video)
    } else if names_equal(name, "subtitle") {
        Some(MediaKind::Subtitle)
    } else {
        None
    }
}

/// Reading an identifier gives back the sample format it names.
pub proof fn lemma_sample_format_name_roundtrip(f: SampleFormat, g: SampleFormat)
    requires
        sample_format_name(g) == sample_format_name(f),
    ensures
        g == f,
{
    if g != f {
        lemma_sample_format_names_distinct(f, g);
    }
}

/// Reading an identifier gives back the media kind it names.
pub proof fn lemma_media_kind_name_roundtrip(k: MediaKind, l: MediaKind)
    requires
        media_kind_name(l) == media_kind_name(k),
    ensures
        l == k,
{
    if l != k {
        lemma_media_kind_names_distinct(k, l);
    }
}

/// Message of an unknown sample format identifier.
pub open spec fn unknown_sample_format_message(name: Seq<char>) -> Seq<char> {
    "unknown sample format: "@ + name
}

/// Message of a channel count that does not fit a config.
pub open spec fn channels_too_large_message(channels: nat) -> Seq<char> {
    "channel count "@ + decimal(channels) + " exceeds u16::MAX"@
}

/// Message of an unknown media kind filter.
pub open spec fn unknown_kind_message(name: Seq<char>) -> Seq<char> {
    "unknown kind: "@ + name
}

/// A codec config from options given as plain values: the sample format by
/// its identifier, the channel count as a `u32`. An unknown sample format is
/// refused first, then a channel count above 65535.
pub fn config_from_parts(
    sample_rate: Option<u32>,
    channels: Option<u32>,
    sample_format: Option<&str>,
    bitrate: Option<u32>,
    extra_data: Option<Bytes>,
) -> (r: Result<CodecConfig, String>)
    ensures
        match r {
            Ok(c) => {
                &&& c.sample_rate == sample_rate
                &&& c.bitrate == bitrate
                &&& c.extra_data == extra_data
                &&& match sample_format {
                    None => c.sample_format is None,
                    Some(s) => c.sample_format matches Some(f) && sample_format_name(f) == s@,
                }
                &&& match channels {
                    None => c.channels is None,
                    Some(n) => n <= MAX_CONFIG_CHANNELS && c.channels == Some(n as u16),
                }
            },
            Err(m) => match sample_format {
                Some(s) if forall|f: SampleFormat| sample_format_name(f) != s@ => m@
                    == unknown_sample_format_message(s@),
                _ => channels matches Some(n) && n > MAX_CONFIG_CHANNELS && m@
                    == channels_too_large_message(n as nat),
            },
        },
{
    let format = match sample_format {
        None => None,
        Some(s) => match parse_sample_format(s) {
            Some(f) => Some(f),
            None => {
                let mut message = String::from_str("unknown sample format: ");
                message.append(s);
                return Err(message);
            },
        },
    };
    let channel_count = match channels {
        None => None,
        Some(n) => {
            if n <= MAX_CONFIG_CHANNELS {
                Some(n as u16)
            } else {
                let mut message = String::from_str("channel count ");
                push_decimal(&mut message, n as u64);
                message.append(" exceeds u16::MAX");
                return Err(message);
            }
        },
    };
    Ok(CodecConfig {
        sample_rate,
        channels: channel_count,
        sample_format: format,
        bitrate,
        extra_data,
    })
}

/// The kind filter of a registry listing: no filter for `None` or the empty
/// string, else the media kind the string names.
pub fn kind_filter(kind: Option<&str>) -> (r: Result<Option<MediaKind>, String>)
    ensures
        match kind {
            None => r == Ok::<Option<MediaKind>, String>(None),
            Some(s) => if s@.len() == 0 {
                r == Ok::<Option<MediaKind>, String>(None)
            } else {
                match r {
                    Ok(Some(k)) => media_kind_name(k) == s@,
                    Ok(None) => false,
                    Err(m) => (forall|k: MediaKind| media_kind_name(k) != s@) && m@ == unknown_kind_message(
                        s@,
                    ),
                }
            },
        },
{
    match kind {
        None => Ok(None),
        Some(s) => {
            if s.is_empty() {
                return Ok(None);
            }
            match parse_media_kind(s) {
                Some(k) => Ok(Some(k)),
                None => {
                    let mut message = String::from_str("unknown kind: ");
                    message.append(s);
                    Err(message)
                },
            }
        },
    }
}

/// A descriptor as shown to JavaScript: names, kind identifier, and the
/// capabilities callers ask about.
pub struct DescriptorSummary {
    pub name: &'static str,
    pub long_name: &'static str,
    pub kind: &'static str,
    pub can_decode: bool,
    pub can_encode: bool,
    pub is_lossless: bool,
    pub is_hardware: bool,
}

/// The summary of descriptor `d`.
pub fn summarize(d: &CodecDescriptor) -> (s: DescriptorSummary)
    ensures
        s.name@ == d.name@,
        s.long_name@ == d.long_name@,
        s.kind@ == media_kind_name(d.kind),
        s.can_decode == d.capabilities.spec_has(DECODE_BIT),
        s.can_encode == d.capabilities.spec_has(ENCODE_BIT),
        s.is_lossless == d.capabilities.spec_has(LOSSLESS_BIT),
        s.is_hardware == d.capabilities.spec_has(HARDWARE_BIT),
{
    DescriptorSummary {
        name: d.name,
        long_name: d.long_name,
        kind: d.kind.as_str(),
        can_decode: d.capabilities.contains(CodecCapabilities::DECODE()),
        can_encode: d.capabilities.contains(CodecCapabilities::ENCODE()),
        is_lossless: d.capabilities.contains(CodecCapabilities::LOSSLESS()),
        is_hardware: d.capabilities.contains(CodecCapabilities::HARDWARE()),
    }
}

/// The text of an error thrown across the boundary: its display text,
/// `[kind] message (context)`, or `[kind] message` when it has no context.
pub fn boundary_message(e: &CodecError) -> (s: String)
    ensures
        s@ == display_text(e@),
{
    e.to_string()
}

} // verus!
