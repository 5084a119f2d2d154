//! Capture source choice and the capture command line, and the search for a
//! Bluetooth source in `pactl` / `pw-cli` / `pw-dump` output.
use vstd::prelude::*;

use crate::text::{
    append_str, chars_of, contains, line_ranges, lines, range_views, ranges_in,
    starts_with, starts_with_exec, string_of, trail_char, trim, trim_bounds, trim_end_matches,
    trim_matches, trim_matches_bounds, word_ranges, words, find, find_exec, lemma_find_is_match,
    matches_at, lemma_trail_bound, is_char, contains_exec,
};

verus! {

/// Where audio is captured from.
#[derive(Debug)]
pub enum CaptureSource {
    /// A Bluetooth source node, captured directly (no EQ).
    BluetoothDirect(String),
    /// The monitor of the named null sink (EQ-processed audio).
    NullSink(String),
    /// The default source.
    Default,
}

/// A capture source as plain values.
pub enum CaptureSourceView {
    BluetoothDirect(Seq<char>),
    NullSink(Seq<char>),
    Default,
}

impl View for CaptureSource {
    type V = CaptureSourceView;

    open spec fn view(&self) -> CaptureSourceView {
        match self {
            CaptureSource::BluetoothDirect(n) => CaptureSourceView::BluetoothDirect(n@),
            CaptureSource::NullSink(n) => CaptureSourceView::NullSink(n@),
            CaptureSource::Default => CaptureSourceView::Default,
        }
    }
}

/// The null sink monitor when the sink exists, else a Bluetooth source when
/// one was found, else the default source.
pub open spec fn capture_source_of(
    null_sink_name: Seq<char>,
    null_sink_exists: bool,
    bt_source: Option<Seq<char>>,
) -> CaptureSourceView {
    if null_sink_exists {
        CaptureSourceView::NullSink(null_sink_name)
    } else {
        match bt_source {
            Some(b) => CaptureSourceView::BluetoothDirect(b),
            None => CaptureSourceView::Default,
        }
    }
}

/// Choose the capture source from what was found on the system.
pub fn choose_capture_source(
    null_sink_name: &str,
    null_sink_exists: bool,
    bt_source: Option<String>,
) -> (r: CaptureSource)
    ensures
        r@ == capture_source_of(null_sink_name@, null_sink_exists, bt_source.deep_view()),
{
    if null_sink_exists {
        CaptureSource::NullSink(String::from_str(null_sink_name))
    } else {
        match bt_source {
            Some(b) => CaptureSource::BluetoothDirect(b),
            None => CaptureSource::Default,
        }
    }
}

/// The capture program and its arguments: `parec` when it is installed
/// (PulseAudio source names), else `pw-cat` (PipeWire node names).
pub open spec fn capture_command_of(
    source: CaptureSourceView,
    parec_available: bool,
    pwcat_available: bool,
) -> Result<(Seq<char>, Seq<Seq<char>>), Seq<char>> {
    if parec_available {
        let device = match source {
            CaptureSourceView::BluetoothDirect(n) => n,
            CaptureSourceView::NullSink(n) => n + ".monitor"@,
            CaptureSourceView::Default => "@DEFAULT_MONITOR@"@,
        };
        Ok(
            (
                "parec"@,
                seq![
                    "--raw"@,
                    "--format=float32"@,
                    "--channels=2"@,
                    "--rate=48000"@,
                    "--device="@ + device,
                    "--latency-msec=50"@,
                ],
            ),
        )
    } else if pwcat_available {
        let head = seq![
            "--format"@,
            "f32"@,
            "--channels"@,
            "2"@,
            "--rate"@,
            "48000"@,
            "-r"@,
        ];
        let target = match source {
            CaptureSourceView::BluetoothDirect(n) => seq!["--target"@, n],
            CaptureSourceView::NullSink(n) => seq!["--target"@, n],
            CaptureSourceView::Default => Seq::empty(),
        };
        Ok(("pw-cat"@, head + target + seq!["-"@]))
    } else {
        Err("Neither parec nor pw-cat found"@)
    }
}

fn text(s: &str) -> (r: String)
    ensures
        r@ == s@,
{
    String::from_str(s)
}

fn text_with(a: &str, b: &str) -> (r: String)
    ensures
        r@ == a@ + b@,
{
    let mut v: Vec<char> = Vec::new();
    append_str(&mut v, a);
    append_str(&mut v, b);
    string_of(&v)
}

/// Build the capture command for `source`, given which capture tools are
/// installed.
pub fn build_capture_command(
    source: &CaptureSource,
    parec_available: bool,
    pwcat_available: bool,
) -> (r: Result<(&'static str, Vec<String>), String>)
    ensures
        match r {
            Ok((cmd, args)) => capture_command_of(source@, parec_available, pwcat_available)
                == Ok::<(Seq<char>, Seq<Seq<char>>), Seq<char>>((cmd@, args.deep_view())),
            Err(e) => capture_command_of(source@, parec_available, pwcat_available) == Err::<
                (Seq<char>, Seq<Seq<char>>),
                Seq<char>,
            >(e@),
        },
{
    if parec_available {
        let device = match source {
            CaptureSource::BluetoothDirect(name) => name.clone(),
            CaptureSource::NullSink(name) => text_with(name.as_str(), ".monitor"),
            CaptureSource::Default => text("@DEFAULT_MONITOR@"),
        };
        let mut args: Vec<String> = Vec::new();
        args.push(text("--raw"));
        args.push(text("--format=float32"));
        args.push(text("--channels=2"));
        args.push(text("--rate=48000"));
        args.push(text_with("--device=", device.as_str()));
        args.push(text("--latency-msec=50"));
        let cmd = "parec";
        proof {
            assert(args.deep_view() =~= capture_command_of(source@, parec_available, pwcat_available)->Ok_0.1);
        }
        Ok((cmd, args))
    } else if pwcat_available {
        let mut args: Vec<String> = Vec::new();
        args.push(text("--format"));
        args.push(text("f32"));
        args.push(text("--channels"));
        args.push(text("2"));
        args.push(text("--rate"));
        args.push(text("48000"));
        args.push(text("-r"));
        match source {
            CaptureSource::BluetoothDirect(name) => {
                args.push(text("--target"));
                args.push(name.clone());
            },
            CaptureSource::NullSink(name) => {
                args.push(text("--target"));
                args.push(name.clone());
            },
            CaptureSource::Default => {},
        }
        args.push(text("-"));
        let cmd = "pw-cat";
        proof {
            assert(args.deep_view() =~= capture_command_of(source@, parec_available, pwcat_available)->Ok_0.1);
        }
        Ok((cmd, args))
    } else {
        Err(text("Neither parec nor pw-cat found"))
    }
}

/// A PipeWire/PulseAudio node name of a Bluetooth audio source.
pub open spec fn bt_source_name(name: Seq<char>) -> bool {
    starts_with(name, "bluez_input."@) || starts_with(name, "bluez_source."@)
}

/// Check if a given name looks like a Bluetooth audio source.
pub fn is_bt_source_name(name: &str) -> (r: bool)
    ensures
        r == bt_source_name(name@),
{
    let cs = chars_of(name);
    let a = chars_of("bluez_input.");
    let b = chars_of("bluez_source.");
    starts_with_exec(&cs, &a) || starts_with_exec(&cs, &b)
}

/// The first Bluetooth source word among `ws`.
pub open spec fn first_bt_word(ws: Seq<Seq<char>>) -> Option<Seq<char>>
    decreases ws.len(),
{
    if ws.len() == 0 {
        None
    } else if bt_source_name(ws[0]) {
        Some(ws[0])
    } else {
        first_bt_word(ws.drop_first())
    }
}

/// The first Bluetooth source word of a listing, reading line by line.
pub open spec fn first_bt_in_lines(ls: Seq<Seq<char>>) -> Option<Seq<char>>
    decreases ls.len(),
{
    if ls.len() == 0 {
        None
    } else {
        match first_bt_word(words(ls[0])) {
            Some(w) => Some(w),
            None => first_bt_in_lines(ls.drop_first()),
        }
    }
}

fn piece<'a>(s: &'a [char], rs: &Vec<(usize, usize)>, k: usize) -> (p: &'a [char])
    requires
        ranges_in(s@, rs@),
        k < rs@.len(),
    ensures
        p@ == range_views(s@, rs@)[k as int],
{
    let (a, b) = rs[k];
    &s[a..b]
}

fn first_bt_word_of_line(line: &[char]) -> (r: Option<String>)
    ensures
        r.deep_view() == first_bt_word(words(line@)),
{
    let wr = word_ranges(line);
    let ghost ws = words(line@);
    let mut k: usize = 0;
    proof {
        assert(ws.skip(0) =~= ws);
    }
    while k < wr.len()
        invariant
            ranges_in(line@, wr@),
            range_views(line@, wr@) == ws,
            ws == words(line@),
            0 <= k <= wr@.len(),
            first_bt_word(ws) == first_bt_word(ws.skip(k as int)),
        decreases wr.len() - k,
    {
        let w = string_of(piece(line, &wr, k));
        proof {
            assert(ws.skip(k as int).drop_first() =~= ws.skip(k + 1));
            assert(ws.skip(k as int)[0] == w@);
        }
        if is_bt_source_name(w.as_str()) {
            let r = Some(w);
            assert(r.deep_view() == first_bt_word(ws.skip(k as int)));
            return r;
        }
        k = k + 1;
    }
    assert(ws.skip(wr@.len() as int) =~= Seq::<Seq<char>>::empty());
    None
}

/// Find a Bluetooth source name in a text listing (works for both pactl and
/// pw-cli output): the first word, line by line, that names one.
pub fn find_bt_name_in_listing(text: &str) -> (r: Option<String>)
    ensures
        r.deep_view() == first_bt_in_lines(lines(text@)),
{
    let cs = chars_of(text);
    let lr = line_ranges(&cs);
    let ghost ls = lines(cs@);
    let mut k: usize = 0;
    proof {
        assert(ls.skip(0) =~= ls);
    }
    while k < lr.len()
        invariant
            ranges_in(cs@, lr@),
            range_views(cs@, lr@) == ls,
            ls == lines(text@),
            0 <= k <= lr@.len(),
            first_bt_in_lines(ls) == first_bt_in_lines(ls.skip(k as int)),
        decreases lr.len() - k,
    {
        let line = piece(&cs, &lr, k);
        proof {
            assert(ls.skip(k as int).drop_first() =~= ls.skip(k + 1));
            assert(ls.skip(k as int)[0] == line@);
        }
        match first_bt_word_of_line(line) {
            Some(w) => {
                let r = Some(w);
                assert(r.deep_view() == first_bt_in_lines(ls.skip(k as int)));
                return r;
            },
            None => {},
        }
        k = k + 1;
    }
    assert(ls.skip(lr@.len() as int) =~= Seq::<Seq<char>>::empty());
    None
}

/// The value of a JSON-like `"key": "value",` line: the text after the first
/// `:`, trimmed, then without trailing commas, without surrounding quotes,
/// and trimmed again; nothing when that is empty.
pub open spec fn json_string_value(line: Seq<char>) -> Option<Seq<char>> {
    match find(line, seq![':']) {
        Some(p) => {
            let v = trim(trim_matches(trim_end_matches(trim(line.skip(p + 1)), ','), '"'));
            if v.len() > 0 {
                Some(v)
            } else {
                None
            }
        },
        None => None,
    }
}

/// Extract a string value from a JSON-like line: `"key": "value",` → `value`.
pub fn extract_json_string_value(line: &str) -> (r: Option<String>)
    ensures
        r.deep_view() == json_string_value(line@),
{
    let cs = chars_of(line);
    let colon = vec![':'];
    assert(colon@ =~= seq![':']);
    match find_exec(&cs, &colon) {
        Some(p) => {
            proof {
                lemma_find_is_match(cs@, colon@);
                assert(matches_at(cs@, colon@, p as int));
            }
            assert(p + 1 <= cs.len());
            let rest = &cs[p + 1..cs.len()];
            assert(rest@ =~= line@.skip(p + 1));
            let (a, b) = trim_bounds(rest);
            let t1 = &rest[a..b];
            let n = trail_char(t1, ',');
            proof {
                lemma_trail_bound(t1@, is_char(','));
            }
            let t2 = &t1[0..t1.len() - n];
            assert(t2@ =~= trim_end_matches(t1@, ','));
            let (c, d) = trim_matches_bounds(t2, '"');
            let t3 = &t2[c..d];
            let (e, f) = trim_bounds(t3);
            let v = &t3[e..f];
            if v.len() > 0 {
                Some(string_of(v))
            } else {
                None
            }
        },
        None => None,
    }
}

/// What a `pw-dump` line offers as a Bluetooth source: the line itself,
/// trimmed and without trailing commas or surrounding quotes, when that names
/// one; else, on a `node.name` line, its JSON string value when that names
/// one.
pub open spec fn dump_line_source(line: Seq<char>) -> Option<Seq<char>> {
    let bare = trim_matches(trim_end_matches(trim(line), ','), '"');
    if bt_source_name(bare) {
        Some(bare)
    } else if contains(line, "node.name"@) && json_string_value(line) is Some && bt_source_name(
        json_string_value(line)->0,
    ) {
        json_string_value(line)
    } else {
        None
    }
}

/// The first Bluetooth source a `pw-dump` listing offers.
pub open spec fn first_dump_source(ls: Seq<Seq<char>>) -> Option<Seq<char>>
    decreases ls.len(),
{
    if ls.len() == 0 {
        None
    } else {
        match dump_line_source(ls[0]) {
            Some(n) => Some(n),
            None => first_dump_source(ls.drop_first()),
        }
    }
}

fn dump_line_source_exec(line: &[char]) -> (r: Option<String>)
    ensures
        r.deep_view() == dump_line_source(line@),
{
    let (a, b) = trim_bounds(line);
    let t1 = &line[a..b];
    let n = trail_char(t1, ',');
    proof {
        lemma_trail_bound(t1@, is_char(','));
    }
    let t2 = &t1[0..t1.len() - n];
    assert(t2@ =~= trim_end_matches(t1@, ','));
    let (c, d) = trim_matches_bounds(t2, '"');
    let bare = string_of(&t2[c..d]);
    if is_bt_source_name(bare.as_str()) {
        return Some(bare);
    }
    let key = chars_of("node.name");
    if contains_exec(line, &key) {
        let text = string_of(line);
        match extract_json_string_value(text.as_str()) {
            Some(name) => {
                if is_bt_source_name(name.as_str()) {
                    return Some(name);
                }
            },
            None => {},
        }
    }
    None
}

/// Search `pw-dump` output for a Bluetooth source node name.
pub fn find_bt_source_in_dump(dump: &str) -> (r: Option<String>)
    ensures
        r.deep_view() == first_dump_source(lines(dump@)),
{
    let cs = chars_of(dump);
    let lr = line_ranges(&cs);
    let ghost ls = lines(cs@);
    let mut k: usize = 0;
    proof {
        assert(ls.skip(0) =~= ls);
    }
    while k < lr.len()
        invariant
            ranges_in(cs@, lr@),
            range_views(cs@, lr@) == ls,
            ls == lines(dump@),
            0 <= k <= lr@.len(),
            first_dump_source(ls) == first_dump_source(ls.skip(k as int)),
        decreases lr.len() - k,
    {
        let line = piece(&cs, &lr, k);
        proof {
            assert(ls.skip(k as int).drop_first() =~= ls.skip(k + 1));
            assert(ls.skip(k as int)[0] == line@);
        }
        match dump_line_source_exec(line) {
            Some(n) => {
                let r = Some(n);
                assert(r.deep_view() == first_dump_source(ls.skip(k as int)));
                return r;
            },
            None => {},
        }
        k = k + 1;
    }
    assert(ls.skip(lr@.len() as int) =~= Seq::<Seq<char>>::empty());
    None
}

} // verus!
