//! The HTTP audio stream: which device to capture from and the
//! `parec | ffmpeg` pipelines that encode it.
use vstd::prelude::*;

use crate::audio::capture::{bt_source_name, is_bt_source_name};
use crate::text::{
    append_str, chars_of, contains, contains_exec, line_ranges, lines, range_views, ranges_in,
    string_of, word_ranges, words,
};

verus! {

/// The source named on a `pactl list short sources` line, when it is a
/// Bluetooth one.
pub open spec fn bt_source_of_line(line: Seq<char>) -> Option<Seq<char>> {
    let w = words(line);
    if w.len() >= 2 && bt_source_name(w[1]) {
        Some(w[1])
    } else {
        None
    }
}

pub open spec fn first_bt_source_line(ls: Seq<Seq<char>>) -> Option<Seq<char>>
    decreases ls.len(),
{
    if ls.len() == 0 {
        None
    } else {
        match bt_source_of_line(ls[0]) {
            Some(s) => Some(s),
            None => first_bt_source_line(ls.drop_first()),
        }
    }
}

/// The capture device of a stream: the null sink's monitor when the sink is
/// listed, else the first Bluetooth source, else the default monitor.
pub open spec fn stream_device_of(sinks: Seq<char>, sources: Seq<char>) -> Seq<char> {
    if contains(sinks, "soundsync-capture"@) {
        "soundsync-capture.monitor"@
    } else {
        match first_bt_source_line(lines(sources)) {
            Some(s) => s,
            None => "@DEFAULT_MONITOR@"@,
        }
    }
}

fn piece<'a>(s: &'a [char], rs: &Vec<(usize, usize)>, k: usize) -> (p: &'a [char])
    requires
        ranges_in(s@, rs@),
        k < rs@.len(),
    ensures
        p@ == range_views(s@, rs@)[k as int],
{
    let (a, b) = rs[k];
    &s[a..b]
}

/// Resolve the capture device from the `pactl list short sinks` and
/// `pactl list short sources` listings.
pub fn choose_stream_device(sinks: &str, sources: &str) -> (r: String)
    ensures
        r@ == stream_device_of(sinks@, sources@),
{
    let sc = chars_of(sinks);
    let capture = chars_of("soundsync-capture");
    if contains_exec(&sc, &capture) {
        return String::from_str("soundsync-capture.monitor");
    }
    let cs = chars_of(sources);
    let lr = line_ranges(&cs);
    let ghost ls = lines(cs@);
    let mut k: usize = 0;
    proof {
        assert(ls.skip(0) =~= ls);
    }
    while k < lr.len()
        invariant
            ranges_in(cs@, lr@),
            range_views(cs@, lr@) == ls,
            ls == lines(sources@),
            !contains(sinks@, "soundsync-capture"@),
            0 <= k <= lr@.len(),
            first_bt_source_line(ls) == first_bt_source_line(ls.skip(k as int)),
        decreases lr.len() - k,
    {
        let line = piece(&cs, &lr, k);
        proof {
            assert(ls.skip(k as int).drop_first() =~= ls.skip(k + 1));
            assert(ls.skip(k as int)[0] == line@);
        }
        let wr = word_ranges(line);
        if wr.len() >= 2 {
            let name = string_of(piece(line, &wr, 1));
            if is_bt_source_name(name.as_str()) {
                return name;
            }
        }
        k = k + 1;
    }
    assert(ls.skip(lr@.len() as int) =~= Seq::<Seq<char>>::empty());
    String::from_str("@DEFAULT_MONITOR@")
}

/// The shell pipeline that captures `device` and encodes AAC-LC 256 kbps
/// ADTS.
pub open spec fn aac_pipeline_of(device: Seq<char>) -> Seq<char> {
    "parec --device="@ + device
        + " --format=s16le --rate=48000 --channels=2 --latency-msec=50 | ffmpeg -hide_banner -loglevel quiet -fflags +nobuffer -f s16le -ar 48000 -ac 2 -i pipe:0 -c:a aac -b:a 256k -f adts -flush_packets 1 pipe:1"@
}

/// The shell pipeline that captures `device` and encodes MP3 192 kbps.
pub open spec fn mp3_pipeline_of(device: Seq<char>) -> Seq<char> {
    "parec --device="@ + device
        + " --format=s16le --rate=48000 --channels=2 --latency-msec=50 | ffmpeg -hide_banner -loglevel quiet -fflags +nobuffer -f s16le -ar 48000 -ac 2 -i pipe:0 -c:a libmp3lame -b:a 192k -f mp3 -flush_packets 1 pipe:1"@
}

/// The AAC stream pipeline for `device`.
pub fn aac_pipeline_command(device: &str) -> (r: String)
    ensures
        r@ == aac_pipeline_of(device@),
{
    let mut v: Vec<char> = Vec::new();
    append_str(&mut v, "parec --device=");
    append_str(&mut v, device);
    append_str(
        &mut v,
        " --format=s16le --rate=48000 --channels=2 --latency-msec=50 | ffmpeg -hide_banner -loglevel quiet -fflags +nobuffer -f s16le -ar 48000 -ac 2 -i pipe:0 -c:a aac -b:a 256k -f adts -flush_packets 1 pipe:1",
    );
    string_of(&v)
}

/// The MP3 stream pipeline for `device`.
pub fn mp3_pipeline_command(device: &str) -> (r: String)
    ensures
        r@ == mp3_pipeline_of(device@),
{
    let mut v: Vec<char> = Vec::new();
    append_str(&mut v, "parec --device=");
    append_str(&mut v, device);
    append_str(
        &mut v,
        " --format=s16le --rate=48000 --channels=2 --latency-msec=50 | ffmpeg -hide_banner -loglevel quiet -fflags +nobuffer -f s16le -ar 48000 -ac 2 -i pipe:0 -c:a libmp3lame -b:a 192k -f mp3 -flush_packets 1 pipe:1",
    );
    string_of(&v)
}

/// The local address `hostname -I` reports first, if any.
pub open spec fn first_address_of(out: Seq<char>) -> Option<Seq<char>> {
    let w = words(out);
    if w.len() > 0 {
        Some(w[0])
    } else {
        None
    }
}

/// The first address in `hostname -I` output.
pub fn first_address(out: &str) -> (r: Option<String>)
    ensures
        r.deep_view() == first_address_of(out@),
{
    let cs = chars_of(out);
    let wr = word_ranges(&cs);
    if wr.len() > 0 {
        Some(string_of(piece(&cs, &wr, 0)))
    } else {
        None
    }
}

} // verus!
