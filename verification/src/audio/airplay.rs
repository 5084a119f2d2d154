//! AirPlay output: parsing `avahi-browse -p` and `pw-cli` listings into
//! devices, matching RAOP sinks, and the directory of discovered devices.
use vstd::prelude::*;

use crate::text::{
    append_str, decimal, decimal_chars, lowercase, remove_char, remove_char_exec, replace_char,
    replace_char_exec, to_lowercase, word_ranges, words, chars_eq, contains, contains_exec, eq_str, line_ranges, lines, parse_u16, parse_unsigned,
    range_views, ranges_in, split, split_ranges, char_is_digit, chars_of, digit_value, digits_value, extend_chars, find, find_exec, is_char,
    is_digit, lemma_find_is_match, matches_at, lemma_trail_bound, string_of, trail_char, trim, trim_bounds,
    trim_end_matches, trim_matches, trim_matches_bounds,
};

verus! {

/// A discovered AirPlay (RAOP) receiver.
#[derive(Debug, Clone)]
pub struct AirPlayDeviceInfo {
    pub name: String,
    pub address: String,
    pub port: u16,
    pub model: String,
}

/// An AirPlay receiver as plain values.
pub struct AirPlayView {
    pub name: Seq<char>,
    pub address: Seq<char>,
    pub port: u16,
    pub model: Seq<char>,
}

impl View for AirPlayDeviceInfo {
    type V = AirPlayView;

    open spec fn view(&self) -> AirPlayView {
        AirPlayView {
            name: self.name@,
            address: self.address@,
            port: self.port,
            model: self.model@,
        }
    }
}

impl AirPlayDeviceInfo {
    /// A field-by-field copy.
    pub fn duplicate(&self) -> (r: Self)
        ensures
            r@ == self@,
    {
        AirPlayDeviceInfo {
            name: self.name.clone(),
            address: self.address.clone(),
            port: self.port,
            model: self.model.clone(),
        }
    }
}

pub open spec fn views(devs: Seq<AirPlayDeviceInfo>) -> Seq<AirPlayView> {
    devs.map_values(|d: AirPlayDeviceInfo| d@)
}

pub open spec fn escape_width(rest: Seq<char>) -> nat {
    if rest.len() == 0 {
        0
    } else if !is_digit(rest[0]) || rest.len() == 1 {
        1
    } else if !is_digit(rest[1]) || rest.len() == 2 {
        2
    } else {
        3
    }
}

pub open spec fn escape_code(rest: Seq<char>) -> Option<nat> {
    if escape_width(rest) == 3 && is_digit(rest[2]) && digits_value(rest.take(3)) <= 255 {
        Some(digits_value(rest.take(3)))
    } else {
        None
    }
}

/// The character an escape code stands for: the character with that code,
/// except that `\043` is read as `#`. That follows this project's own
/// examples and tests for the decoder (`\032` space, `\064` `@`, `\043` `#`);
/// the character with code 43 is `+`.
pub open spec fn escaped_char(v: nat) -> char {
    if v == 43 {
        '#'
    } else {
        v as char
    }
}

/// `avahi-browse -p` escapes: a backslash and three decimal digits stand for
/// the character with that code (up to 255, see `escaped_char`); any other
/// backslash sequence is kept as written.
pub open spec fn decode_avahi(s: Seq<char>) -> Seq<char>
    decreases s.len(),
{
    if s.len() == 0 {
        Seq::empty()
    } else if s[0] != '\\' {
        seq![s[0]] + decode_avahi(s.drop_first())
    } else {
        let rest = s.drop_first();
        let w = escape_width(rest);
        let head = match escape_code(rest) {
            Some(v) => seq![escaped_char(v)],
            None => seq!['\\'] + rest.take(w as int),
        };
        head + decode_avahi(rest.skip(w as int))
    }
}

fn three_digit_value(a: char, b: char, c: char) -> (v: u32)
    requires
        is_digit(a),
        is_digit(b),
        is_digit(c),
    ensures
        v == digits_value(seq![a, b, c]),
{
    let ghost s = seq![a, b, c];
    proof {
        let s1 = seq![a];
        let s2 = seq![a, b];
        assert(s1.drop_last() =~= Seq::<char>::empty());
        assert(digits_value(Seq::<char>::empty()) == 0);
        assert(digits_value(s1) == digit_value(a));
        assert(s2.drop_last() =~= s1);
        assert(digits_value(s2) == digit_value(a) * 10 + digit_value(b));
        assert(s.drop_last() =~= s2);
        assert(digits_value(s) == digits_value(s2) * 10 + digit_value(c));
    }
    let da = (a as u32) - ('0' as u32);
    let db = (b as u32) - ('0' as u32);
    let dc = (c as u32) - ('0' as u32);
    da * 100 + db * 10 + dc
}

fn code_char(v: u32) -> (c: char)
    requires
        v <= 255,
    ensures
        c == escaped_char(v as nat),
{
    if v == 43 {
        '#'
    } else {
        (v as u8) as char
    }
}

fn escape_width_at(cs: &Vec<char>, start: usize) -> (w: usize)
    requires
        start <= cs@.len(),
    ensures
        w == escape_width(cs@.skip(start as int)),
        start + w <= cs@.len(),
{
    let n = cs.len() - start;
    if n == 0 {
        0
    } else if !char_is_digit(cs[start]) || n == 1 {
        1
    } else if !char_is_digit(cs[start + 1]) || n == 2 {
        2
    } else {
        3
    }
}

/// Decode the escapes of an `avahi-browse -p` field.
pub fn decode_avahi_escapes(s: &str) -> (r: String)
    ensures
        r@ == decode_avahi(s@),
{
    let cs = chars_of(s);
    let mut out: Vec<char> = Vec::new();
    let mut i: usize = 0;
    proof {
        assert(cs@.skip(0) =~= cs@);
    }
    while i < cs.len()
        invariant
            0 <= i <= cs@.len(),
            out@ + decode_avahi(cs@.skip(i as int)) == decode_avahi(cs@),
        decreases cs.len() - i,
    {
        let ghost t = cs@.skip(i as int);
        let ghost before = out@;
        if cs[i] != '\\' {
            out.push(cs[i]);
            proof {
                assert(t.drop_first() =~= cs@.skip(i + 1));
                assert(out@ + decode_avahi(cs@.skip(i + 1)) =~= before + decode_avahi(t));
            }
            i = i + 1;
        } else {
            let start = i + 1;
            let w = escape_width_at(&cs, start);
            let ghost rest = cs@.skip(start as int);
            proof {
                assert(t.drop_first() =~= rest);
            }
            let mut decoded = false;
            if w == 3 && char_is_digit(cs[start + 2]) {
                let v = three_digit_value(cs[start], cs[start + 1], cs[start + 2]);
                proof {
                    assert(rest.take(3) =~= seq![cs@[start as int], cs@[start + 1], cs@[start + 2]]);
                }
                if v <= 255 {
                    out.push(code_char(v));
                    decoded = true;
                }
            }
            if !decoded {
                out.push('\\');
                let mut k: usize = 0;
                while k < w
                    invariant
                        start + w <= cs@.len(),
                        start + w <= cs.len(),
                        0 <= k <= w,
                        out@ == before + seq!['\\'] + cs@.subrange(start as int, start + k),
                    decreases w - k,
                {
                    out.push(cs[start + k]);
                    proof {
                        assert(cs@.subrange(start as int, start + k + 1) =~= cs@.subrange(
                            start as int,
                            start + k,
                        ).push(cs@[start + k]));
                    }
                    k = k + 1;
                }
                proof {
                    assert(rest.take(w as int) =~= cs@.subrange(start as int, start + w));
                }
            }
            proof {
                assert(rest.skip(w as int) =~= cs@.skip(start + w));
                assert(out@ + decode_avahi(cs@.skip(start + w)) =~= before + decode_avahi(t));
            }
            i = start + w;
        }
    }
    string_of(&out)
}

/// The value of `key` in a TXT record: the text after the first `"key=`
/// up to the next `"`.
pub open spec fn txt_field(txt: Seq<char>, key: Seq<char>) -> Option<Seq<char>> {
    let search = seq!['"'] + key + seq!['='];
    match find(txt, search) {
        Some(st) => {
            let vs = st + search.len();
            match find(txt.skip(vs), seq!['"']) {
                Some(e) => Some(txt.subrange(vs, vs + e)),
                None => None,
            }
        },
        None => None,
    }
}

/// Extract a field value from an Avahi TXT record string.
pub fn extract_txt_field(txt: &str, key: &str) -> (r: Option<String>)
    ensures
        r.deep_view() == txt_field(txt@, key@),
{
    let cs = chars_of(txt);
    let mut search: Vec<char> = Vec::new();
    search.push('"');
    let kc = chars_of(key);
    extend_chars(&mut search, &kc);
    search.push('=');
    assert(search@ =~= seq!['"'] + key@ + seq!['=']);
    match find_exec(&cs, &search) {
        Some(st) => {
            proof {
                lemma_find_is_match(cs@, search@);
                assert(matches_at(cs@, search@, st as int));
            }
            assert(st + search@.len() <= cs.len());
            let vs = st + search.len();
            let tail = &cs[vs..cs.len()];
            assert(tail@ =~= cs@.skip(vs as int));
            let quote = vec!['"'];
            assert(quote@ =~= seq!['"']);
            match find_exec(tail, &quote) {
                Some(e) => {
                    proof {
                        lemma_find_is_match(tail@, quote@);
                        assert(matches_at(tail@, quote@, e as int));
                    }
                    let v = string_of(&cs[vs..vs + e]);
                    assert(cs@.subrange(vs as int, vs + e) =~= txt@.subrange(vs as int, vs + e));
                    Some(v)
                },
                None => None,
            }
        },
        None => None,
    }
}

/// The readable part of a RAOP service name `MAC@Name`: what follows the
/// first `@` (the whole name without one), trailing `#`s removed, trimmed.
pub open spec fn raop_friendly_name(raw: Seq<char>) -> Seq<char> {
    let name = match find(raw, seq!['@']) {
        Some(p) => raw.skip(p + 1),
        None => raw,
    };
    trim(trim_end_matches(name, '#'))
}

/// Extract the friendly device name from a RAOP service name.
pub fn extract_raop_friendly_name(raw_name: &str) -> (r: String)
    ensures
        r@ == raop_friendly_name(raw_name@),
{
    let cs = chars_of(raw_name);
    let at = vec!['@'];
    assert(at@ =~= seq!['@']);
    let start: usize = match find_exec(&cs, &at) {
        Some(p) => {
            proof {
                lemma_find_is_match(cs@, at@);
                assert(matches_at(cs@, at@, p as int));
            }
            assert(p + 1 <= cs.len());
            p + 1
        },
        None => 0,
    };
    let name = &cs[start..cs.len()];
    proof {
        if start == 0 {
            assert(name@ =~= cs@);
        } else {
            assert(name@ =~= cs@.skip(start as int));
        }
    }
    let n = trail_char(name, '#');
    proof {
        lemma_trail_bound(name@, is_char('#'));
    }
    let stripped = &name[0..name.len() - n];
    assert(stripped@ =~= trim_end_matches(name@, '#'));
    let (a, b) = trim_bounds(stripped);
    string_of(&stripped[a..b])
}

/// The value after the first `=` of a `pw-cli` line, trimmed and stripped of
/// quotes; nothing when that leaves it empty.
pub open spec fn pw_property(line: Seq<char>) -> Option<Seq<char>> {
    match find(line, seq!['=']) {
        Some(p) => {
            let v = trim_matches(trim(line.skip(p + 1)), '"');
            if v.len() > 0 {
                Some(v)
            } else {
                None
            }
        },
        None => None,
    }
}

/// Extract a property value from a pw-cli output line.
pub fn extract_pw_property(line: &str) -> (r: Option<String>)
    ensures
        r.deep_view() == pw_property(line@),
{
    let cs = chars_of(line);
    let eq = vec!['='];
    assert(eq@ =~= seq!['=']);
    match find_exec(&cs, &eq) {
        Some(p) => {
            proof {
                lemma_find_is_match(cs@, eq@);
                assert(matches_at(cs@, eq@, p as int));
            }
            assert(p + 1 <= cs.len());
            let after = &cs[p + 1..cs.len()];
            assert(after@ =~= line@.skip(p + 1));
            let (a, b) = trim_bounds(after);
            let trimmed = &after[a..b];
            let (c, d) = trim_matches_bounds(trimmed, '"');
            let value = &trimmed[c..d];
            if value.len() > 0 {
                Some(string_of(value))
            } else {
                None
            }
        },
        None => None,
    }
}

/// One `avahi-browse -p -r` line: a resolved record (`=` first) with at
/// least nine `;`-separated fields gives a device. The port falls back to
/// 7000 when it does not parse; the model comes from the TXT record's `am`
/// entry, else "AirPlay".
pub open spec fn avahi_record(line: Seq<char>) -> Option<AirPlayView> {
    let f = split(line, ';');
    if f.len() >= 9 && f[0] == "="@ {
        Some(
            AirPlayView {
                name: raop_friendly_name(decode_avahi(f[3])),
                address: f[7],
                port: match parse_unsigned(f[8], u16::MAX as nat) {
                    Some(p) => p as u16,
                    None => 7000,
                },
                model: if f.len() > 9 {
                    match txt_field(f[9], "am"@) {
                        Some(m) => decode_avahi(m),
                        None => "AirPlay"@,
                    }
                } else {
                    "AirPlay"@
                },
            },
        )
    } else {
        None
    }
}

/// The devices found so far and the names already seen. A name is taken
/// once (the first record wins, even when that record is then skipped for an
/// IPv6 address).
pub open spec fn avahi_scan(ls: Seq<Seq<char>>) -> (Seq<AirPlayView>, Set<Seq<char>>)
    decreases ls.len(),
{
    if ls.len() == 0 {
        (Seq::empty(), Set::empty())
    } else {
        let (devs, seen) = avahi_scan(ls.drop_last());
        match avahi_record(ls.last()) {
            None => (devs, seen),
            Some(d) => if seen.contains(d.name) {
                (devs, seen)
            } else if contains(d.address, seq![':']) {
                (devs, seen.insert(d.name))
            } else {
                (devs.push(d), seen.insert(d.name))
            },
        }
    }
}

/// The devices of an `avahi-browse -t -r -p -k _raop._tcp` listing.
pub open spec fn avahi_devices(out: Seq<char>) -> Seq<AirPlayView> {
    avahi_scan(lines(out)).0
}

fn field<'a>(line: &'a [char], fr: &Vec<(usize, usize)>, k: usize) -> (f: &'a [char])
    requires
        ranges_in(line@, fr@),
        k < fr@.len(),
    ensures
        f@ == range_views(line@, fr@)[k as int],
{
    let (a, b) = fr[k];
    &line[a..b]
}

fn record_of_line(line: &[char]) -> (r: Option<AirPlayDeviceInfo>)
    ensures
        match r {
            Some(d) => avahi_record(line@) == Some(d@),
            None => avahi_record(line@) is None,
        },
{
    let fr = split_ranges(line, ';');
    let ghost f = split(line@, ';');
    if fr.len() < 9 {
        return None;
    }
    let f0 = field(line, &fr, 0);
    if !eq_str(f0, "=") {
        return None;
    }
    let raw = string_of(field(line, &fr, 3));
    let decoded = decode_avahi_escapes(raw.as_str());
    let name = extract_raop_friendly_name(decoded.as_str());
    let address = string_of(field(line, &fr, 7));
    let port: u16 = match parse_u16(field(line, &fr, 8)) {
        Some(p) => p,
        None => 7000,
    };
    let model = if fr.len() > 9 {
        let txt = string_of(field(line, &fr, 9));
        match extract_txt_field(txt.as_str(), "am") {
            Some(m) => decode_avahi_escapes(m.as_str()),
            None => String::from_str("AirPlay"),
        }
    } else {
        String::from_str("AirPlay")
    };
    let d = AirPlayDeviceInfo { name, address, port, model };
    assert(avahi_record(line@) == Some(d@));
    Some(d)
}

pub open spec fn names_of(seen: Seq<Vec<char>>) -> Set<Seq<char>> {
    Set::new(|n: Seq<char>| exists|j: int| 0 <= j < seen.len() && (#[trigger] seen[j])@ == n)
}

proof fn lemma_names_push(seen: Seq<Vec<char>>, v: Vec<char>)
    ensures
        names_of(seen.push(v)) == names_of(seen).insert(v@),
{
    let pushed = seen.push(v);
    assert forall|n: Seq<char>|
        names_of(pushed).contains(n) <==> names_of(seen).insert(v@).contains(n) by {
        if names_of(seen).contains(n) {
            let j = choose|j: int| 0 <= j < seen.len() && (#[trigger] seen[j])@ == n;
            assert(pushed[j] == seen[j]);
        }
        if n == v@ {
            assert(pushed[seen.len() as int] == v);
        }
        if names_of(pushed).contains(n) {
            let j = choose|j: int| 0 <= j < pushed.len() && (#[trigger] pushed[j])@ == n;
            if j < seen.len() {
                assert(pushed[j] == seen[j]);
            }
        }
    }
    assert(names_of(pushed) =~= names_of(seen).insert(v@));
}

fn seen_contains(seen: &Vec<Vec<char>>, n: &[char]) -> (r: bool)
    ensures
        r == names_of(seen@).contains(n@),
{
    let mut j: usize = 0;
    while j < seen.len()
        invariant
            0 <= j <= seen@.len(),
            forall|k: int| 0 <= k < j ==> (#[trigger] seen@[k])@ != n@,
        decreases seen.len() - j,
    {
        if chars_eq(seen[j].as_slice(), n) {
            assert(seen@[j as int]@ == n@);
            return true;
        }
        j = j + 1;
    }
    false
}

/// Parse the output of `avahi-browse -t -r -p -k _raop._tcp` into devices.
pub fn parse_avahi_browse_output(out: &str) -> (r: Vec<AirPlayDeviceInfo>)
    ensures
        views(r@) == avahi_devices(out@),
{
    let cs = chars_of(out);
    let lr = line_ranges(&cs);
    let ghost ls = lines(cs@);
    let mut devices: Vec<AirPlayDeviceInfo> = Vec::new();
    let mut seen: Vec<Vec<char>> = Vec::new();
    let mut k: usize = 0;
    proof {
        assert(ls.take(0) =~= Seq::<Seq<char>>::empty());
        assert(views(devices@) =~= Seq::<AirPlayView>::empty());
        assert(names_of(seen@) =~= Set::<Seq<char>>::empty());
    }
    while k < lr.len()
        invariant
            ranges_in(cs@, lr@),
            range_views(cs@, lr@) == ls,
            0 <= k <= lr@.len(),
            avahi_scan(ls.take(k as int)) == (views(devices@), names_of(seen@)),
        decreases lr.len() - k,
    {
        let line = field(&cs, &lr, k);
        let ghost before_devs = views(devices@);
        let ghost before_seen = names_of(seen@);
        proof {
            assert(ls.take(k + 1).drop_last() =~= ls.take(k as int));
            assert(ls.take(k + 1).last() == line@);
        }
        match record_of_line(line) {
            Some(d) => {
                let nc = chars_of(d.name.as_str());
                if !seen_contains(&seen, &nc) {
                    let ac = chars_of(d.address.as_str());
                    let colon = vec![':'];
                    assert(colon@ =~= seq![':']);
                    let ipv6 = contains_exec(&ac, &colon);
                    let ghost seen_before = seen@;
                    let ghost nv = nc@;
                    seen.push(nc);
                    proof {
                        lemma_names_push(seen_before, seen@.last());
                        assert(seen@ =~= seen_before.push(seen@.last()));
                    }
                    if !ipv6 {
                        devices.push(d);
                        assert(views(devices@) =~= before_devs.push(d@));
                    }
                }
            },
            None => {},
        }
        k = k + 1;
    }
    assert(ls.take(lr@.len() as int) =~= ls);
    devices
}

/// Scan state of a `pw-cli list-objects` listing: the devices found and the
/// RAOP node description waiting for its `node.name` line.
pub open spec fn pw_cli_scan(ls: Seq<Seq<char>>) -> (Seq<AirPlayView>, Seq<char>)
    decreases ls.len(),
{
    if ls.len() == 0 {
        (Seq::empty(), Seq::empty())
    } else {
        let (devs, cur) = pw_cli_scan(ls.drop_last());
        let line = ls.last();
        if contains(line, "raop"@) || contains(line, "RAOP"@) {
            let named = if (contains(line, "node.description"@) || contains(line, "node.nick"@))
                && pw_property(line) is Some {
                pw_property(line)->0
            } else {
                cur
            };
            if contains(line, "node.name"@) && named.len() > 0 {
                (
                    devs.push(
                        AirPlayView {
                            name: named,
                            address: Seq::empty(),
                            port: 7000,
                            model: "AirPlay"@,
                        },
                    ),
                    Seq::empty(),
                )
            } else {
                (devs, named)
            }
        } else {
            (devs, cur)
        }
    }
}

/// The RAOP sinks of a `pw-cli list-objects` listing, as devices without an
/// address.
pub open spec fn pw_cli_devices(out: Seq<char>) -> Seq<AirPlayView> {
    pw_cli_scan(lines(out)).0
}

fn line_has(line: &[char], pat: &str) -> (r: bool)
    ensures
        r == contains(line@, pat@),
{
    let pc = chars_of(pat);
    contains_exec(line, &pc)
}

/// Parse `pw-cli list-objects` output into the RAOP sinks it lists.
pub fn parse_pw_cli_raop_sinks(out: &str) -> (r: Vec<AirPlayDeviceInfo>)
    ensures
        views(r@) == pw_cli_devices(out@),
{
    let cs = chars_of(out);
    let lr = line_ranges(&cs);
    let ghost ls = lines(cs@);
    let mut devices: Vec<AirPlayDeviceInfo> = Vec::new();
    let mut current: Vec<char> = Vec::new();
    let mut k: usize = 0;
    proof {
        assert(ls.take(0) =~= Seq::<Seq<char>>::empty());
        assert(views(devices@) =~= Seq::<AirPlayView>::empty());
    }
    while k < lr.len()
        invariant
            ranges_in(cs@, lr@),
            range_views(cs@, lr@) == ls,
            0 <= k <= lr@.len(),
            pw_cli_scan(ls.take(k as int)) == (views(devices@), current@),
        decreases lr.len() - k,
    {
        let line = field(&cs, &lr, k);
        let ghost before_devs = views(devices@);
        proof {
            assert(ls.take(k + 1).drop_last() =~= ls.take(k as int));
            assert(ls.take(k + 1).last() == line@);
        }
        if line_has(line, "raop") || line_has(line, "RAOP") {
            if line_has(line, "node.description") || line_has(line, "node.nick") {
                let text = string_of(line);
                match extract_pw_property(text.as_str()) {
                    Some(v) => {
                        current = chars_of(v.as_str());
                    },
                    None => {},
                }
            }
            if line_has(line, "node.name") && current.len() > 0 {
                let d = AirPlayDeviceInfo {
                    name: string_of(&current),
                    address: String::new(),
                    port: 7000,
                    model: String::from_str("AirPlay"),
                };
                devices.push(d);
                assert(views(devices@) =~= before_devs.push(d@));
                current = Vec::new();
                assert(current@ =~= Seq::<char>::empty());
            }
        }
        k = k + 1;
    }
    assert(ls.take(lr@.len() as int) =~= ls);
    devices
}

/// A sink of `pactl list short sinks` is the route to an AirPlay device
/// when its name mentions `raop` and either holds the device's address (as
/// written, or with `.` turned into `_`) or, ignoring case, the device's name
/// with spaces turned into `_` or removed. `sink_lower` and `name_lower` are
/// the lowercased sink and device names.
pub open spec fn raop_sink_matches(
    sink: Seq<char>,
    sink_lower: Seq<char>,
    address: Seq<char>,
    name_lower: Seq<char>,
) -> bool {
    &&& contains(sink, "raop"@)
    &&& {
        ||| (address.len() > 0 && (contains(sink, replace_char(address, '.', '_')) || contains(
            sink,
            address,
        )))
        ||| contains(sink_lower, replace_char(name_lower, ' ', '_'))
        ||| contains(sink_lower, remove_char(name_lower, ' '))
    }
}

/// Whether `sink` routes to the device with `address`, given the lowercased
/// sink name and device name.
pub fn sink_matches(sink: &str, sink_lower: &str, address: &str, name_lower: &str) -> (r: bool)
    ensures
        r == raop_sink_matches(sink@, sink_lower@, address@, name_lower@),
{
    let sc = chars_of(sink);
    if !line_has(&sc, "raop") {
        return false;
    }
    let ac = chars_of(address);
    if ac.len() > 0 {
        let underscored = replace_char_exec(&ac, '.', '_');
        if contains_exec(&sc, &underscored) || contains_exec(&sc, &ac) {
            return true;
        }
    }
    let lc = chars_of(sink_lower);
    let nc = chars_of(name_lower);
    let with_underscores = replace_char_exec(&nc, ' ', '_');
    let without_spaces = remove_char_exec(&nc, ' ');
    contains_exec(&lc, &with_underscores) || contains_exec(&lc, &without_spaces)
}

/// The sink name of a `pactl list short sinks` line: its second word.
pub open spec fn sink_of_line(line: Seq<char>) -> Option<Seq<char>> {
    let w = words(line);
    if w.len() >= 2 {
        Some(w[1])
    } else {
        None
    }
}

/// The first sink of the listing that routes to the device.
pub open spec fn first_matching_sink(
    ls: Seq<Seq<char>>,
    address: Seq<char>,
    name_lower: Seq<char>,
) -> Option<Seq<char>>
    decreases ls.len(),
{
    if ls.len() == 0 {
        None
    } else {
        match sink_of_line(ls[0]) {
            Some(sk) => if raop_sink_matches(sk, lowercase(sk), address, name_lower) {
                Some(sk)
            } else {
                first_matching_sink(ls.drop_first(), address, name_lower)
            },
            None => first_matching_sink(ls.drop_first(), address, name_lower),
        }
    }
}

/// Find the RAOP sink for `device` in `pactl list short sinks` output.
pub fn find_raop_sink_in_listing(listing: &str, device: &AirPlayDeviceInfo) -> (r: Option<String>)
    ensures
        r.deep_view() == first_matching_sink(
            lines(listing@),
            device.address@,
            lowercase(device.name@),
        ),
{
    let cs = chars_of(listing);
    let lr = line_ranges(&cs);
    let ghost ls = lines(cs@);
    let name_lower = to_lowercase(device.name.as_str());
    let mut k: usize = 0;
    proof {
        assert(ls.skip(0) =~= ls);
    }
    while k < lr.len()
        invariant
            ranges_in(cs@, lr@),
            range_views(cs@, lr@) == ls,
            0 <= k <= lr@.len(),
            name_lower@ == lowercase(device.name@),
            ls == lines(listing@),
            first_matching_sink(ls, device.address@, name_lower@) == first_matching_sink(
                ls.skip(k as int),
                device.address@,
                name_lower@,
            ),
        decreases lr.len() - k,
    {
        let line = field(&cs, &lr, k);
        proof {
            assert(ls.skip(k as int).drop_first() =~= ls.skip(k + 1));
            assert(ls.skip(k as int)[0] == line@);
        }
        let wr = word_ranges(line);
        if wr.len() >= 2 {
            let sink = string_of(field(line, &wr, 1));
            let sink_lower = to_lowercase(sink.as_str());
            if sink_matches(
                sink.as_str(),
                sink_lower.as_str(),
                device.address.as_str(),
                name_lower.as_str(),
            ) {
                assert(sink_of_line(line@) == Some(sink@));
                assert(first_matching_sink(ls.skip(k as int), device.address@, name_lower@) == Some(
                    sink@,
                ));
                let r = Some(sink);
                assert(r.deep_view() == Some(sink@));
                return r;
            }
            assert(sink_of_line(line@) == Some(sink@));
        }
        k = k + 1;
    }
    assert(ls.skip(lr@.len() as int) =~= Seq::<Seq<char>>::empty());
    None
}

/// The name given to a RAOP sink loaded for `address`.
pub open spec fn raop_sink_name_of(address: Seq<char>) -> Seq<char> {
    "raop_sink."@ + replace_char(address, '.', '_')
}

/// The name given to a RAOP sink loaded for `address`.
pub fn raop_sink_name(address: &str) -> (r: String)
    ensures
        r@ == raop_sink_name_of(address@),
{
    let mut v: Vec<char> = Vec::new();
    append_str(&mut v, "raop_sink.");
    let ac = chars_of(address);
    let u = replace_char_exec(&ac, '.', '_');
    extend_chars(&mut v, &u);
    string_of(&v)
}

/// The `pactl` arguments that load a RAOP sink for `device`.
pub open spec fn raop_sink_args_of(device: AirPlayView) -> Seq<Seq<char>> {
    seq![
        "load-module"@,
        "module-raop-sink"@,
        "server=["@ + device.address + "]:"@ + decimal(device.port as nat),
        "sink_name="@ + raop_sink_name_of(device.address),
        "sink_properties=device.description=\""@ + device.name + "\""@,
    ]
}

/// The `pactl` arguments that load a RAOP sink for `device`.
pub fn raop_sink_args(device: &AirPlayDeviceInfo) -> (r: Vec<String>)
    ensures
        r.deep_view() == raop_sink_args_of(device@),
{
    let mut server: Vec<char> = Vec::new();
    append_str(&mut server, "server=[");
    append_str(&mut server, device.address.as_str());
    append_str(&mut server, "]:");
    let digits = decimal_chars(device.port as u64);
    extend_chars(&mut server, &digits);
    let mut sink: Vec<char> = Vec::new();
    append_str(&mut sink, "sink_name=");
    let sn = raop_sink_name(device.address.as_str());
    append_str(&mut sink, sn.as_str());
    let mut props: Vec<char> = Vec::new();
    append_str(&mut props, "sink_properties=device.description=\"");
    append_str(&mut props, device.name.as_str());
    append_str(&mut props, "\"");
    let mut r: Vec<String> = Vec::new();
    r.push(String::from_str("load-module"));
    r.push(String::from_str("module-raop-sink"));
    r.push(string_of(&server));
    r.push(string_of(&sink));
    r.push(string_of(&props));
    assert(r.deep_view() =~= raop_sink_args_of(device@));
    r
}

/// The port pairs that route `source_sink`'s monitor to `target_sink`'s
/// playback, left channel first.
pub open spec fn pw_link_ports_of(source_sink: Seq<char>, target_sink: Seq<char>) -> Seq<
    (Seq<char>, Seq<char>),
> {
    seq![
        (source_sink + ":monitor_FL"@, target_sink + ":playback_FL"@),
        (source_sink + ":monitor_FR"@, target_sink + ":playback_FR"@),
    ]
}

fn joined(a: &str, b: &str) -> (r: String)
    ensures
        r@ == a@ + b@,
{
    let mut v: Vec<char> = Vec::new();
    append_str(&mut v, a);
    append_str(&mut v, b);
    string_of(&v)
}

/// The `pw-link` port pairs for linking `source_sink` to `target_sink`.
pub fn pw_link_ports(source_sink: &str, target_sink: &str) -> (r: Vec<(String, String)>)
    ensures
        r@.len() == 2,
        forall|i: int|
            0 <= i < 2 ==> (#[trigger] r@[i]).0@ == pw_link_ports_of(source_sink@, target_sink@)[i].0
                && r@[i].1@ == pw_link_ports_of(source_sink@, target_sink@)[i].1,
{
    let mut r: Vec<(String, String)> = Vec::new();
    r.push((joined(source_sink, ":monitor_FL"), joined(target_sink, ":playback_FL")));
    r.push((joined(source_sink, ":monitor_FR"), joined(target_sink, ":playback_FR")));
    r
}

/// The identifier under which a created link is remembered.
pub open spec fn link_id_of(source_port: Seq<char>, target_port: Seq<char>) -> Seq<char> {
    source_port + "|"@ + target_port
}

/// The identifier under which a created link is remembered.
pub fn link_id(source_port: &str, target_port: &str) -> (r: String)
    ensures
        r@ == link_id_of(source_port@, target_port@),
{
    let mut v: Vec<char> = Vec::new();
    append_str(&mut v, source_port);
    append_str(&mut v, "|");
    append_str(&mut v, target_port);
    string_of(&v)
}

/// A link id names exactly two ports, separated by `|`.
pub open spec fn link_ports_of(id: Seq<char>) -> Option<(Seq<char>, Seq<char>)> {
    let parts = split(id, '|');
    if parts.len() == 2 {
        Some((parts[0], parts[1]))
    } else {
        None
    }
}

/// The two ports of a link id; nothing when it does not have exactly two.
pub fn link_ports(id: &str) -> (r: Option<(String, String)>)
    ensures
        match r {
            Some(p) => link_ports_of(id@) == Some((p.0@, p.1@)),
            None => link_ports_of(id@) is None,
        },
{
    let cs = chars_of(id);
    let pr = split_ranges(&cs, '|');
    if pr.len() == 2 {
        let a = string_of(field(&cs, &pr, 0));
        let b = string_of(field(&cs, &pr, 1));
        Some((a, b))
    } else {
        None
    }
}

/// `pw-link` refused because the link is already there.
pub open spec fn link_exists_message(stderr: Seq<char>) -> bool {
    contains(stderr, "already linked"@) || contains(stderr, "File exists"@)
}

/// Whether `pw-link`'s error output says the link already exists.
pub fn link_already_exists(stderr: &str) -> (r: bool)
    ensures
        r == link_exists_message(stderr@),
{
    let cs = chars_of(stderr);
    line_has(&cs, "already linked") || line_has(&cs, "File exists")
}

/// `pactl load-module` refused because the module is already loaded.
pub open spec fn module_loaded_message(stderr: Seq<char>) -> bool {
    contains(stderr, "Module already loaded"@) || contains(stderr, "already loaded"@)
}

/// Whether `pactl load-module`'s error output says the module is loaded.
pub fn module_already_loaded(stderr: &str) -> (r: bool)
    ensures
        r == module_loaded_message(stderr@),
{
    let cs = chars_of(stderr);
    line_has(&cs, "Module already loaded") || line_has(&cs, "already loaded")
}

/// The entry of `ds` named `name`, if any.
pub open spec fn lookup_name(ds: Seq<AirPlayView>, name: Seq<char>) -> Option<AirPlayView> {
    if exists|i: int| 0 <= i < ds.len() && (#[trigger] ds[i]).name == name {
        Some(ds[choose|i: int| 0 <= i < ds.len() && (#[trigger] ds[i]).name == name])
    } else {
        None
    }
}

pub open spec fn distinct_names(ds: Seq<AirPlayView>) -> bool {
    forall|i: int, j: int|
        0 <= i < ds.len() && 0 <= j < ds.len() && i != j ==> (#[trigger] ds[i]).name
            != (#[trigger] ds[j]).name
}

/// The AirPlay devices discovered so far, one per name, in order of first
/// discovery.
pub struct AirPlayDirectory {
    devices: Vec<AirPlayDeviceInfo>,
}

impl AirPlayDirectory {
    pub closed spec fn entries(&self) -> Seq<AirPlayView> {
        views(self.devices@)
    }

    pub open spec fn wf(&self) -> bool {
        distinct_names(self.entries())
    }

    pub open spec fn lookup(&self, name: Seq<char>) -> Option<AirPlayView> {
        lookup_name(self.entries(), name)
    }

    pub fn new() -> (r: Self)
        ensures
            r.wf(),
            r.entries().len() == 0,
    {
        let r = AirPlayDirectory { devices: Vec::new() };
        assert(r.entries() =~= Seq::<AirPlayView>::empty());
        r
    }

    fn position(&self, name: &str) -> (r: Option<usize>)
        requires
            self.wf(),
        ensures
            match r {
                Some(i) => i < self.entries().len() && self.entries()[i as int].name == name@,
                None => forall|i: int|
                    0 <= i < self.entries().len() ==> (#[trigger] self.entries()[i]).name
                        != name@,
            },
    {
        let nc = chars_of(name);
        let mut i: usize = 0;
        while i < self.devices.len()
            invariant
                0 <= i <= self.devices@.len(),
                nc@ == name@,
                forall|k: int|
                    0 <= k < i ==> (#[trigger] self.entries()[k]).name != name@,
            decreases self.devices.len() - i,
        {
            let dn = chars_of(self.devices[i].name.as_str());
            if chars_eq(&dn, &nc) {
                return Some(i);
            }
            i = i + 1;
        }
        None
    }

    /// Record a discovered device; one already known under the same name is
    /// replaced in place.
    pub fn insert(&mut self, device: AirPlayDeviceInfo)
        requires
            old(self).wf(),
        ensures
            final(self).wf(),
            final(self).lookup(device.name@) == Some(device@),
            forall|n: Seq<char>| n != device.name@ ==> final(self).lookup(n) == old(self).lookup(n),
            lookup_name(old(self).entries(), device.name@) is Some ==> final(self).entries().len()
                == old(self).entries().len(),
            lookup_name(old(self).entries(), device.name@) is None ==> final(self).entries()
                == old(self).entries().push(device@),
    {
        let ghost before = self.entries();
        let ghost dv = device@;
        match self.position(device.name.as_str()) {
            Some(i) => {
                self.devices.set(i, device);
                proof {
                    assert(self.entries() =~= before.update(i as int, dv));
                    assert forall|n: Seq<char>| n != dv.name implies #[trigger] lookup_name(
                        self.entries(),
                        n,
                    ) == lookup_name(before, n) by {
                        if exists|k: int| 0 <= k < before.len() && (#[trigger] before[k]).name == n {
                            let k = choose|k: int| 0 <= k < before.len() && (#[trigger] before[k]).name == n;
                            assert(self.entries()[k].name == n);
                        }
                        if exists|k: int|
                            0 <= k < self.entries().len() && (#[trigger] self.entries()[k]).name == n {
                            let k = choose|k: int|
                                0 <= k < self.entries().len() && (#[trigger] self.entries()[k]).name == n;
                            assert(before[k].name == n);
                        }
                    }
                    assert(self.entries()[i as int].name == dv.name);
                }
            },
            None => {
                self.devices.push(device);
                proof {
                    assert(self.entries() =~= before.push(dv));
                    assert forall|n: Seq<char>| n != dv.name implies #[trigger] lookup_name(
                        self.entries(),
                        n,
                    ) == lookup_name(before, n) by {
                        if exists|k: int| 0 <= k < before.len() && (#[trigger] before[k]).name == n {
                            let k = choose|k: int| 0 <= k < before.len() && (#[trigger] before[k]).name == n;
                            assert(self.entries()[k].name == n);
                        }
                    }
                    assert(self.entries()[before.len() as int].name == dv.name);
                }
            },
        }
    }

    /// The device recorded under `name`.
    pub fn get(&self, name: &str) -> (r: Option<AirPlayDeviceInfo>)
        requires
            self.wf(),
        ensures
            match r {
                Some(d) => self.lookup(name@) == Some(d@),
                None => self.lookup(name@) is None,
            },
    {
        match self.position(name) {
            Some(i) => Some(self.devices[i].duplicate()),
            None => None,
        }
    }

    /// The device a connect request names, or the error reported for an
    /// unknown one.
    pub fn connect_target(&self, name: &str) -> (r: Result<AirPlayDeviceInfo, String>)
        requires
            self.wf(),
        ensures
            match r {
                Ok(d) => self.lookup(name@) == Some(d@),
                Err(e) => self.lookup(name@) is None && e@ == "Device not found: "@ + name@,
            },
    {
        match self.get(name) {
            Some(d) => Ok(d),
            None => Err(joined("Device not found: ", name)),
        }
    }

    /// The recorded devices, in order of first discovery.
    pub fn devices(&self) -> (r: Vec<AirPlayDeviceInfo>)
        ensures
            views(r@) == self.entries(),
    {
        let mut r: Vec<AirPlayDeviceInfo> = Vec::new();
        let mut i: usize = 0;
        while i < self.devices.len()
            invariant
                0 <= i <= self.devices@.len(),
                views(r@) == self.entries().take(i as int),
            decreases self.devices.len() - i,
        {
            let d = self.devices[i].duplicate();
            let ghost before = r@;
            r.push(d);
            proof {
                assert(views(before) == self.entries().take(i as int));
                assert(views(before).len() == before.len());
                assert(before.len() == i);
                assert(r@ == before.push(d));
                assert forall|k: int| 0 <= k < i + 1 implies views(r@)[k] == self.entries().take(
                    i + 1,
                )[k] by {
                    if k < i {
                        assert(r@[k] == before[k]);
                        assert(views(before)[k] == before[k]@);
                    }
                }
                assert(views(r@) =~= self.entries().take(i + 1));
            }
            i = i + 1;
        }
        assert(self.entries().take(self.devices@.len() as int) =~= self.entries());
        r
    }

    pub fn is_empty(&self) -> (r: bool)
        ensures
            r == (self.entries().len() == 0),
    {
        self.devices.len() == 0
    }
}

} // verus!
