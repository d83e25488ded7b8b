//! The per-feature cache codec: a compact, self-delimiting text encoding of
//! one compatibility record, written once on first resolution and read back
//! by later runs. Decoding an encoded record reproduces it exactly.

use vstd::prelude::*;
use vstd::string::*;
use crate::targets::{digits_value, is_digit, lemma_digits_value_grows};
use crate::bcd::{Compatibility, CompatibilityModel, Status, SupportInfo, SupportInfoModel, SupportMap, SupportMapModel, VersionAdded, VersionAddedModel, VersionSupport, VersionSupportModel};

verus! {

/// The decimal digit character for `d`.
pub open spec fn digit_char(d: int) -> char {
    if d == 0 {
        '0'
    } else if d == 1 {
        '1'
    } else if d == 2 {
        '2'
    } else if d == 3 {
        '3'
    } else if d == 4 {
        '4'
    } else if d == 5 {
        '5'
    } else if d == 6 {
        '6'
    } else if d == 7 {
        '7'
    } else if d == 8 {
        '8'
    } else {
        '9'
    }
}

/// The decimal rendering of `n`, most significant digit first.
pub open spec fn dec_digits(n: int) -> Seq<char>
    decreases n,
{
    if n < 10 {
        seq![digit_char(n)]
    } else {
        dec_digits(n / 10) + seq![digit_char(n % 10)]
    }
}

pub proof fn lemma_dec_digits(n: int)
    requires
        n >= 0,
    ensures
        dec_digits(n).len() >= 1,
        forall|i: int| 0 <= i < dec_digits(n).len() ==> is_digit(#[trigger] dec_digits(n)[i]),
        digits_value(dec_digits(n)) == n,
    decreases n,
{
    if n < 10 {
        let s1 = seq![digit_char(n)];
        assert(dec_digits(n) =~= s1);
        assert(s1.drop_last() =~= Seq::<char>::empty());
        assert(digits_value(s1.drop_last()) == 0);
        assert(s1.last() == digit_char(n));
        assert(digit_char(n) as int == 48 + n);
        assert(digits_value(s1) == n);
    } else {
        lemma_dec_digits(n / 10);
        let d = dec_digits(n);
        assert(d.drop_last() =~= dec_digits(n / 10));
        assert(d.last() == digit_char(n % 10));
        assert(digits_value(d) == (n / 10) * 10 + (n % 10));
        assert forall|i: int| 0 <= i < d.len() implies is_digit(#[trigger] d[i]) by {
            if i < d.len() - 1 {
                assert(d[i] == dec_digits(n / 10)[i]);
            }
        }
    }
}

/// A string encodes as its length in decimal, a colon, then its characters.
pub open spec fn enc_str(s: Seq<char>) -> Seq<char> {
    dec_digits(s.len() as int) + seq![':'] + s
}

pub open spec fn enc_bool(b: bool) -> Seq<char> {
    if b {
        seq!['T']
    } else {
        seq!['F']
    }
}

pub open spec fn enc_opt_str(o: Option<Seq<char>>) -> Seq<char> {
    match o {
        None => seq!['N'],
        Some(s) => seq!['S'] + enc_str(s),
    }
}

/// End of the digit run starting at `pos`.
pub open spec fn digit_run_end(s: Seq<char>, pos: int) -> int
    decreases s.len() - pos,
{
    if pos < s.len() && is_digit(s[pos]) {
        digit_run_end(s, pos + 1)
    } else {
        pos
    }
}

/// A run of digits followed by a non-digit (or the end) pins the run end.
pub proof fn lemma_digit_run_end_exact(s: Seq<char>, pos: int, q: int)
    requires
        0 <= pos <= q <= s.len(),
        forall|k: int| pos <= k < q ==> is_digit(#[trigger] s[k]),
        q == s.len() || !is_digit(s[q]),
    ensures
        digit_run_end(s, pos) == q,
    decreases q - pos,
{
    if pos < q {
        lemma_digit_run_end_exact(s, pos + 1, q);
    }
}

/// Parses the decimal length prefix at `pos`: its value and the position
/// after the digits. Absent digits or a value beyond `usize` parse as
/// nothing.
pub open spec fn parse_len(s: Seq<char>, pos: int) -> Option<(int, int)> {
    let e = digit_run_end(s, pos);
    if pos < e {
        Some((digits_value(s.subrange(pos, e)), e))
    } else {
        None
    }
}

/// Parses a length-prefixed string at `pos`: the string and the position
/// after it.
pub open spec fn parse_str(s: Seq<char>, pos: int) -> Option<(Seq<char>, int)> {
    match parse_len(s, pos) {
        Some((n, e)) => if e < s.len() && s[e] == ':' && e + 1 + n <= s.len() {
            Some((s.subrange(e + 1, e + 1 + n), e + 1 + n))
        } else {
            None
        },
        None => None,
    }
}

pub open spec fn parse_bool(s: Seq<char>, pos: int) -> Option<(bool, int)> {
    if pos < s.len() && s[pos] == 'T' {
        Some((true, pos + 1))
    } else if pos < s.len() && s[pos] == 'F' {
        Some((false, pos + 1))
    } else {
        None
    }
}

pub open spec fn parse_opt_str(s: Seq<char>, pos: int) -> Option<(Option<Seq<char>>, int)> {
    if pos < s.len() && s[pos] == 'N' {
        Some((None, pos + 1))
    } else if pos < s.len() && s[pos] == 'S' {
        match parse_str(s, pos + 1) {
            Some((v, p)) => Some((Some(v), p)),
            None => None,
        }
    } else {
        None
    }
}

/// Splitting a known suffix: consuming its first part lands at its second.
pub proof fn lemma_skip_add(s: Seq<char>, pos: int, a: Seq<char>, b: Seq<char>)
    requires
        0 <= pos <= s.len(),
        s.skip(pos) == a + b,
    ensures
        pos + a.len() <= s.len(),
        s.skip(pos + a.len() as int) =~= b,
        forall|k: int| 0 <= k < a.len() ==> s[pos + k] == a[k],
{
    assert(s.skip(pos).len() == a.len() + b.len());
    assert forall|k: int| 0 <= k < a.len() implies s[pos + k] == a[k] by {
        assert(s.skip(pos)[k] == s[pos + k]);
        assert((a + b)[k] == a[k]);
    }
    assert forall|k: int| 0 <= k < b.len() implies s.skip(pos + a.len() as int)[k] == b[k] by {
        assert(s.skip(pos)[a.len() + k] == s[pos + a.len() + k]);
        assert((a + b)[a.len() + k] == b[k]);
    }
}

/// Parsing right after an encoded length reads back exactly that length.
pub proof fn lemma_parse_len_enc(s: Seq<char>, pos: int, n: int, tail: Seq<char>)
    requires
        0 <= pos <= s.len(),
        0 <= n,
        s.skip(pos) == dec_digits(n) + tail,
        tail.len() == 0 || !is_digit(tail[0]),
    ensures
        parse_len(s, pos) == Some((n, pos + dec_digits(n).len() as int)),
{
    lemma_dec_digits(n);
    lemma_skip_add(s, pos, dec_digits(n), tail);
    let q = pos + dec_digits(n).len() as int;
    if q < s.len() {
        assert(s[q] == s.skip(q)[0]);
    }
    assert forall|k: int| pos <= k < q implies is_digit(#[trigger] s[k]) by {
        assert(s[pos + (k - pos)] == dec_digits(n)[k - pos]);
    }
    lemma_digit_run_end_exact(s, pos, q);
    assert(s.subrange(pos, q) =~= dec_digits(n));
}

/// Parsing right after an encoded string reads back exactly that string.
pub proof fn lemma_parse_str_enc(s: Seq<char>, pos: int, v: Seq<char>, tail: Seq<char>)
    requires
        0 <= pos <= s.len(),
        s.skip(pos) == enc_str(v) + tail,
    ensures
        parse_str(s, pos) == Some((v, pos + enc_str(v).len() as int)),
{
    let d = dec_digits(v.len() as int);
    assert(enc_str(v) + tail =~= d + (seq![':'] + v + tail));
    lemma_parse_len_enc(s, pos, v.len() as int, seq![':'] + v + tail);
    lemma_skip_add(s, pos, d, seq![':'] + v + tail);
    let e = pos + d.len() as int;
    assert(s.skip(e) == seq![':'] + v + tail);
    assert(s[e] == s.skip(e)[0]);
    assert(seq![':'] + v + tail =~= seq![':'] + (v + tail));
    lemma_skip_add(s, e, seq![':'], v + tail);
    assert(s.skip(e + 1) == v + tail);
    lemma_skip_add(s, e + 1, v, tail);
    assert(s.subrange(e + 1, e + 1 + v.len() as int) =~= v);
    assert(enc_str(v).len() == d.len() + 1 + v.len());
}

/// Parsing right after an encoded boolean reads it back.
pub proof fn lemma_parse_bool_enc(s: Seq<char>, pos: int, b: bool, tail: Seq<char>)
    requires
        0 <= pos <= s.len(),
        s.skip(pos) == enc_bool(b) + tail,
    ensures
        parse_bool(s, pos) == Some((b, pos + 1)),
{
    lemma_skip_add(s, pos, enc_bool(b), tail);
    assert(s[pos + 0] == enc_bool(b)[0]);
    assert(pos < s.len());
}

/// Parsing right after an encoded optional string reads it back.
pub proof fn lemma_parse_opt_str_enc(s: Seq<char>, pos: int, o: Option<Seq<char>>, tail: Seq<char>)
    requires
        0 <= pos <= s.len(),
        s.skip(pos) == enc_opt_str(o) + tail,
    ensures
        parse_opt_str(s, pos) == Some((o, pos + enc_opt_str(o).len() as int)),
{
    match o {
        None => {
            lemma_skip_add(s, pos, seq!['N'], tail);
            assert(s[pos + 0] == seq!['N'][0]);
            assert(s[pos + 0] == 'N');
            assert(pos < s.len());
        },
        Some(v) => {
            assert(enc_opt_str(o) + tail =~= seq!['S'] + (enc_str(v) + tail));
            lemma_skip_add(s, pos, seq!['S'], enc_str(v) + tail);
            assert(s[pos + 0] == seq!['S'][0]);
            assert(s[pos + 0] == 'S');
            assert(pos < s.len());
            lemma_parse_str_enc(s, pos + 1, v, tail);
        },
    }
}

/// A version entry encodes as `B` plus a boolean, `V` plus a string, or a
/// bare `N` for no data.
pub open spec fn enc_va(v: VersionAddedModel) -> Seq<char> {
    match v {
        VersionAddedModel::Bool(b) => seq!['B'] + enc_bool(b),
        VersionAddedModel::Text(t) => seq!['V'] + enc_str(t),
        VersionAddedModel::Null => seq!['N'],
    }
}

pub open spec fn enc_info(i: SupportInfoModel) -> Seq<char> {
    enc_va(i.version_added)
}

/// A list encodes as `i` before each element and a closing `e`.
pub open spec fn enc_infos(l: Seq<SupportInfoModel>) -> Seq<char>
    decreases l.len(),
{
    if l.len() == 0 {
        seq!['e']
    } else {
        seq!['i'] + enc_info(l[0]) + enc_infos(l.drop_first())
    }
}

pub open spec fn enc_vs(v: VersionSupportModel) -> Seq<char> {
    match v {
        VersionSupportModel::Single(i) => seq!['1'] + enc_info(i),
        VersionSupportModel::Multiple(l) => seq!['M'] + enc_infos(l),
        VersionSupportModel::Unknown => seq!['U'],
    }
}

pub open spec fn enc_opt_vs(o: Option<VersionSupportModel>) -> Seq<char> {
    match o {
        None => seq!['N'],
        Some(v) => seq!['S'] + enc_vs(v),
    }
}

pub open spec fn enc_status(st: Status) -> Seq<char> {
    enc_bool(st.deprecated) + enc_bool(st.experimental) + enc_bool(st.standard_track)
}

/// The whole record: both optional strings, the status block, then the four
/// tracked browsers' support values.
pub open spec fn enc_compat(c: CompatibilityModel) -> Seq<char> {
    enc_opt_str(c.description) + enc_opt_str(c.mdn_url) + enc_status(c.status) + enc_opt_vs(
        c.support.chrome,
    ) + enc_opt_vs(c.support.firefox) + enc_opt_vs(c.support.safari) + enc_opt_vs(c.support.edge)
}

pub open spec fn parse_va(s: Seq<char>, pos: int) -> Option<(VersionAddedModel, int)> {
    if pos < s.len() && s[pos] == 'B' {
        match parse_bool(s, pos + 1) {
            Some((b, p)) => Some((VersionAddedModel::Bool(b), p)),
            None => None,
        }
    } else if pos < s.len() && s[pos] == 'V' {
        match parse_str(s, pos + 1) {
            Some((t, p)) => Some((VersionAddedModel::Text(t), p)),
            None => None,
        }
    } else if pos < s.len() && s[pos] == 'N' {
        Some((VersionAddedModel::Null, pos + 1))
    } else {
        None
    }
}

pub open spec fn parse_info(s: Seq<char>, pos: int) -> Option<(SupportInfoModel, int)> {
    match parse_va(s, pos) {
        Some((v, p)) => Some((SupportInfoModel { version_added: v }, p)),
        None => None,
    }
}

pub open spec fn parse_infos(s: Seq<char>, pos: int) -> Option<(Seq<SupportInfoModel>, int)>
    decreases s.len() - pos,
{
    if pos < s.len() && s[pos] == 'e' {
        Some((Seq::empty(), pos + 1))
    } else if pos < s.len() && s[pos] == 'i' {
        match parse_info(s, pos + 1) {
            Some((x, p2)) => if pos < p2 && p2 <= s.len() {
                match parse_infos(s, p2) {
                    Some((l, p3)) => Some((seq![x] + l, p3)),
                    None => None,
                }
            } else {
                None
            },
            None => None,
        }
    } else {
        None
    }
}

pub open spec fn parse_vs(s: Seq<char>, pos: int) -> Option<(VersionSupportModel, int)> {
    if pos < s.len() && s[pos] == '1' {
        match parse_info(s, pos + 1) {
            Some((i, p)) => Some((VersionSupportModel::Single(i), p)),
            None => None,
        }
    } else if pos < s.len() && s[pos] == 'M' {
        match parse_infos(s, pos + 1) {
            Some((l, p)) => Some((VersionSupportModel::Multiple(l), p)),
            None => None,
        }
    } else if pos < s.len() && s[pos] == 'U' {
        Some((VersionSupportModel::Unknown, pos + 1))
    } else {
        None
    }
}

pub open spec fn parse_opt_vs(s: Seq<char>, pos: int) -> Option<
    (Option<VersionSupportModel>, int),
> {
    if pos < s.len() && s[pos] == 'N' {
        Some((None, pos + 1))
    } else if pos < s.len() && s[pos] == 'S' {
        match parse_vs(s, pos + 1) {
            Some((v, p)) => Some((Some(v), p)),
            None => None,
        }
    } else {
        None
    }
}

pub open spec fn parse_status(s: Seq<char>, pos: int) -> Option<(Status, int)> {
    match parse_bool(s, pos) {
        Some((d, p1)) => match parse_bool(s, p1) {
            Some((e, p2)) => match parse_bool(s, p2) {
                Some((t, p3)) => Some(
                    (Status { deprecated: d, experimental: e, standard_track: t }, p3),
                ),
                None => None,
            },
            None => None,
        },
        None => None,
    }
}

pub open spec fn parse_compat(s: Seq<char>, pos: int) -> Option<(CompatibilityModel, int)> {
    match parse_opt_str(s, pos) {
        Some((desc, p1)) => match parse_opt_str(s, p1) {
            Some((mdn, p2)) => match parse_status(s, p2) {
                Some((st, p3)) => match parse_opt_vs(s, p3) {
                    Some((ch, p4)) => match parse_opt_vs(s, p4) {
                        Some((ff, p5)) => match parse_opt_vs(s, p5) {
                            Some((sa, p6)) => match parse_opt_vs(s, p6) {
                                Some((ed, p7)) => Some(
                                    (
                                        CompatibilityModel {
                                            description: desc,
                                            mdn_url: mdn,
                                            status: st,
                                            support: SupportMapModel {
                                                chrome: ch,
                                                firefox: ff,
                                                safari: sa,
                                                edge: ed,
                                            },
                                        },
                                        p7,
                                    ),
                                ),
                                None => None,
                            },
                            None => None,
                        },
                        None => None,
                    },
                    None => None,
                },
                None => None,
            },
            None => None,
        },
        None => None,
    }
}

pub proof fn lemma_parse_va_enc(s: Seq<char>, pos: int, v: VersionAddedModel, tail: Seq<char>)
    requires
        0 <= pos <= s.len(),
        s.skip(pos) == enc_va(v) + tail,
    ensures
        parse_va(s, pos) == Some((v, pos + enc_va(v).len() as int)),
{
    match v {
        VersionAddedModel::Bool(b) => {
            assert(enc_va(v) + tail =~= seq!['B'] + (enc_bool(b) + tail));
            lemma_skip_add(s, pos, seq!['B'], enc_bool(b) + tail);
            assert(s[pos + 0] == seq!['B'][0]);
            lemma_parse_bool_enc(s, pos + 1, b, tail);
        },
        VersionAddedModel::Text(t) => {
            assert(enc_va(v) + tail =~= seq!['V'] + (enc_str(t) + tail));
            lemma_skip_add(s, pos, seq!['V'], enc_str(t) + tail);
            assert(s[pos + 0] == seq!['V'][0]);
            lemma_parse_str_enc(s, pos + 1, t, tail);
        },
        VersionAddedModel::Null => {
            lemma_skip_add(s, pos, seq!['N'], tail);
            assert(s[pos + 0] == seq!['N'][0]);
        },
    }
}

pub proof fn lemma_parse_infos_enc(
    s: Seq<char>,
    pos: int,
    l: Seq<SupportInfoModel>,
    tail: Seq<char>,
)
    requires
        0 <= pos <= s.len(),
        s.skip(pos) == enc_infos(l) + tail,
    ensures
        parse_infos(s, pos) == Some((l, pos + enc_infos(l).len() as int)),
    decreases l.len(),
{
    if l.len() == 0 {
        lemma_skip_add(s, pos, seq!['e'], tail);
        assert(s[pos + 0] == seq!['e'][0]);
        assert(parse_infos(s, pos) == Some((Seq::<SupportInfoModel>::empty(), pos + 1)));
        assert(l =~= Seq::<SupportInfoModel>::empty());
    } else {
        let x = l[0];
        let rest = l.drop_first();
        assert(enc_infos(l) + tail =~= seq!['i'] + (enc_info(x) + (enc_infos(rest) + tail)));
        lemma_skip_add(s, pos, seq!['i'], enc_info(x) + (enc_infos(rest) + tail));
        assert(s[pos + 0] == seq!['i'][0]);
        assert(s[pos] == 'i' && s[pos] != 'e');
        lemma_parse_va_enc(s, pos + 1, x.version_added, enc_infos(rest) + tail);
        assert(enc_info(x) == enc_va(x.version_added));
        assert(SupportInfoModel { version_added: x.version_added } == x);
        let p2 = pos + 1 + enc_info(x).len() as int;
        assert(parse_info(s, pos + 1) == Some((x, p2)));
        lemma_skip_add(s, pos + 1, enc_info(x), enc_infos(rest) + tail);
        assert(s.skip(p2) == enc_infos(rest) + tail);
        lemma_parse_infos_enc(s, p2, rest, tail);
        assert(seq![x] + rest =~= l);
        assert(pos + enc_infos(l).len() as int == p2 + enc_infos(rest).len() as int);
    }
}

pub proof fn lemma_parse_vs_enc(s: Seq<char>, pos: int, v: VersionSupportModel, tail: Seq<char>)
    requires
        0 <= pos <= s.len(),
        s.skip(pos) == enc_vs(v) + tail,
    ensures
        parse_vs(s, pos) == Some((v, pos + enc_vs(v).len() as int)),
{
    match v {
        VersionSupportModel::Single(i) => {
            assert(enc_vs(v) + tail =~= seq!['1'] + (enc_info(i) + tail));
            lemma_skip_add(s, pos, seq!['1'], enc_info(i) + tail);
            assert(s[pos + 0] == seq!['1'][0]);
            lemma_parse_va_enc(s, pos + 1, i.version_added, tail);
            assert(SupportInfoModel { version_added: i.version_added } == i);
        },
        VersionSupportModel::Multiple(l) => {
            assert(enc_vs(v) + tail =~= seq!['M'] + (enc_infos(l) + tail));
            lemma_skip_add(s, pos, seq!['M'], enc_infos(l) + tail);
            assert(s[pos + 0] == seq!['M'][0]);
            lemma_parse_infos_enc(s, pos + 1, l, tail);
        },
        VersionSupportModel::Unknown => {
            lemma_skip_add(s, pos, seq!['U'], tail);
            assert(s[pos + 0] == seq!['U'][0]);
        },
    }
}

pub proof fn lemma_parse_opt_vs_enc(
    s: Seq<char>,
    pos: int,
    o: Option<VersionSupportModel>,
    tail: Seq<char>,
)
    requires
        0 <= pos <= s.len(),
        s.skip(pos) == enc_opt_vs(o) + tail,
    ensures
        parse_opt_vs(s, pos) == Some((o, pos + enc_opt_vs(o).len() as int)),
{
    match o {
        None => {
            lemma_skip_add(s, pos, seq!['N'], tail);
            assert(s[pos + 0] == seq!['N'][0]);
        },
        Some(v) => {
            assert(enc_opt_vs(o) + tail =~= seq!['S'] + (enc_vs(v) + tail));
            lemma_skip_add(s, pos, seq!['S'], enc_vs(v) + tail);
            assert(s[pos + 0] == seq!['S'][0]);
            lemma_parse_vs_enc(s, pos + 1, v, tail);
        },
    }
}

pub proof fn lemma_parse_status_enc(s: Seq<char>, pos: int, st: Status, tail: Seq<char>)
    requires
        0 <= pos <= s.len(),
        s.skip(pos) == enc_status(st) + tail,
    ensures
        parse_status(s, pos) == Some((st, pos + 3)),
{
    assert(enc_status(st) + tail =~= enc_bool(st.deprecated) + (enc_bool(st.experimental) + (
    enc_bool(st.standard_track) + tail)));
    lemma_parse_bool_enc(s, pos, st.deprecated, enc_bool(st.experimental) + (enc_bool(
        st.standard_track,
    ) + tail));
    lemma_skip_add(
        s,
        pos,
        enc_bool(st.deprecated),
        enc_bool(st.experimental) + (enc_bool(st.standard_track) + tail),
    );
    lemma_parse_bool_enc(s, pos + 1, st.experimental, enc_bool(st.standard_track) + tail);
    lemma_skip_add(s, pos + 1, enc_bool(st.experimental), enc_bool(st.standard_track) + tail);
    lemma_parse_bool_enc(s, pos + 2, st.standard_track, tail);
}

/// The codec round trip: parsing an encoded record at its start yields the
/// record itself, consuming the whole encoding.
#[verifier::rlimit(100)]
pub proof fn lemma_parse_compat_enc(s: Seq<char>, pos: int, c: CompatibilityModel, tail: Seq<char>)
    requires
        0 <= pos <= s.len(),
        s.skip(pos) == enc_compat(c) + tail,
    ensures
        parse_compat(s, pos) == Some((c, pos + enc_compat(c).len() as int)),
{
    let e1 = enc_opt_str(c.description);
    let e2 = enc_opt_str(c.mdn_url);
    let e3 = enc_status(c.status);
    let e4 = enc_opt_vs(c.support.chrome);
    let e5 = enc_opt_vs(c.support.firefox);
    let e6 = enc_opt_vs(c.support.safari);
    let e7 = enc_opt_vs(c.support.edge);
    assert(enc_compat(c) + tail =~= e1 + (e2 + (e3 + (e4 + (e5 + (e6 + (e7 + tail)))))));
    lemma_parse_opt_str_enc(s, pos, c.description, e2 + (e3 + (e4 + (e5 + (e6 + (e7 + tail))))));
    lemma_skip_add(s, pos, e1, e2 + (e3 + (e4 + (e5 + (e6 + (e7 + tail))))));
    let p1 = pos + e1.len() as int;
    lemma_parse_opt_str_enc(s, p1, c.mdn_url, e3 + (e4 + (e5 + (e6 + (e7 + tail)))));
    lemma_skip_add(s, p1, e2, e3 + (e4 + (e5 + (e6 + (e7 + tail)))));
    let p2 = p1 + e2.len() as int;
    lemma_parse_status_enc(s, p2, c.status, e4 + (e5 + (e6 + (e7 + tail))));
    lemma_skip_add(s, p2, e3, e4 + (e5 + (e6 + (e7 + tail))));
    let p3 = p2 + e3.len() as int;
    lemma_parse_opt_vs_enc(s, p3, c.support.chrome, e5 + (e6 + (e7 + tail)));
    lemma_skip_add(s, p3, e4, e5 + (e6 + (e7 + tail)));
    let p4 = p3 + e4.len() as int;
    lemma_parse_opt_vs_enc(s, p4, c.support.firefox, e6 + (e7 + tail));
    lemma_skip_add(s, p4, e5, e6 + (e7 + tail));
    let p5 = p4 + e5.len() as int;
    lemma_parse_opt_vs_enc(s, p5, c.support.safari, e7 + tail);
    lemma_skip_add(s, p5, e6, e7 + tail);
    let p6 = p5 + e6.len() as int;
    lemma_parse_opt_vs_enc(s, p6, c.support.edge, tail);
    let p7 = p6 + e7.len() as int;
    assert(parse_status(s, p2) == Some((c.status, p2 + 3)));
    assert(e3.len() == 3);
}

/// Decoding an encoded record reproduces it exactly; the per-feature cache
/// is lossless.
pub proof fn lemma_cache_round_trip(c: CompatibilityModel)
    ensures
        parse_compat(enc_compat(c), 0) == Some((c, enc_compat(c).len() as int)),
{
    let s = enc_compat(c);
    assert(s.skip(0) =~= enc_compat(c) + Seq::<char>::empty());
    lemma_parse_compat_enc(s, 0, c, Seq::empty());
}

fn digit_str(d: usize) -> (r: &'static str)
    requires
        d < 10,
    ensures
        r@ == seq![digit_char(d as int)],
{
    if d == 0 {
        proof {
            reveal_strlit("0");
            assert("0"@ =~= seq![digit_char(0)]);
        }
        "0"
    } else if d == 1 {
        proof {
            reveal_strlit("1");
            assert("1"@ =~= seq![digit_char(1)]);
        }
        "1"
    } else if d == 2 {
        proof {
            reveal_strlit("2");
            assert("2"@ =~= seq![digit_char(2)]);
        }
        "2"
    } else if d == 3 {
        proof {
            reveal_strlit("3");
            assert("3"@ =~= seq![digit_char(3)]);
        }
        "3"
    } else if d == 4 {
        proof {
            reveal_strlit("4");
            assert("4"@ =~= seq![digit_char(4)]);
        }
        "4"
    } else if d == 5 {
        proof {
            reveal_strlit("5");
            assert("5"@ =~= seq![digit_char(5)]);
        }
        "5"
    } else if d == 6 {
        proof {
            reveal_strlit("6");
            assert("6"@ =~= seq![digit_char(6)]);
        }
        "6"
    } else if d == 7 {
        proof {
            reveal_strlit("7");
            assert("7"@ =~= seq![digit_char(7)]);
        }
        "7"
    } else if d == 8 {
        proof {
            reveal_strlit("8");
            assert("8"@ =~= seq![digit_char(8)]);
        }
        "8"
    } else {
        proof {
            reveal_strlit("9");
            assert("9"@ =~= seq![digit_char(9)]);
        }
        "9"
    }
}

fn digits_exec(n: usize) -> (r: String)
    ensures
        r@ == dec_digits(n as int),
    decreases n,
{
    if n < 10 {
        String::from_str(digit_str(n))
    } else {
        let mut s = digits_exec(n / 10);
        s.append(digit_str(n % 10));
        proof {
            assert(s@ =~= dec_digits(n as int));
        }
        s
    }
}

fn push_bool(out: &mut String, b: bool)
    ensures
        final(out)@ == old(out)@ + enc_bool(b),
{
    if b {
        out.append("T");
        proof {
            reveal_strlit("T");
            assert(final(out)@ =~= old(out)@ + enc_bool(b));
        }
    } else {
        out.append("F");
        proof {
            reveal_strlit("F");
            assert(final(out)@ =~= old(out)@ + enc_bool(b));
        }
    }
}

fn push_str_enc(out: &mut String, s: &str)
    ensures
        final(out)@ == old(out)@ + enc_str(s@),
{
    let d = digits_exec(s.unicode_len());
    out.append(d.as_str());
    out.append(":");
    out.append(s);
    proof {
        reveal_strlit(":");
        assert(":"@ =~= seq![':']);
        assert(final(out)@ =~= old(out)@ + enc_str(s@));
    }
}

fn push_opt_str(out: &mut String, o: &Option<String>)
    ensures
        final(out)@ == old(out)@ + enc_opt_str(o.deep_view()),
{
    match o {
        None => {
            out.append("N");
            proof {
                reveal_strlit("N");
                assert(final(out)@ =~= old(out)@ + enc_opt_str(None));
            }
        },
        Some(s) => {
            out.append("S");
            push_str_enc(out, s.as_str());
            proof {
                reveal_strlit("S");
                assert(final(out)@ =~= old(out)@ + enc_opt_str(Some(s@)));
            }
        },
    }
}

fn push_va(out: &mut String, v: &VersionAdded)
    ensures
        final(out)@ == old(out)@ + enc_va(v@),
{
    match v {
        VersionAdded::Bool(b) => {
            out.append("B");
            push_bool(out, *b);
            proof {
                reveal_strlit("B");
                assert(final(out)@ =~= old(out)@ + enc_va(v@));
            }
        },
        VersionAdded::Text(t) => {
            out.append("V");
            push_str_enc(out, t.as_str());
            proof {
                reveal_strlit("V");
                assert(final(out)@ =~= old(out)@ + enc_va(v@));
            }
        },
        VersionAdded::Null => {
            out.append("N");
            proof {
                reveal_strlit("N");
                assert(final(out)@ =~= old(out)@ + enc_va(v@));
            }
        },
    }
}

fn push_infos(out: &mut String, l: &Vec<SupportInfo>, from: usize)
    requires
        from <= l@.len(),
    ensures
        final(out)@ == old(out)@ + enc_infos(l.deep_view().skip(from as int)),
    decreases l@.len() - from,
{
    if from == l.len() {
        out.append("e");
        proof {
            reveal_strlit("e");
            assert(l.deep_view().skip(from as int) =~= Seq::<SupportInfoModel>::empty());
            assert(final(out)@ =~= old(out)@ + enc_infos(l.deep_view().skip(from as int)));
        }
    } else {
        out.append("i");
        push_va(out, &l[from].version_added);
        push_infos(out, l, from + 1);
        proof {
            reveal_strlit("i");
            let rest = l.deep_view().skip(from as int);
            assert(rest[0] == l.deep_view()[from as int]);
            assert(rest.drop_first() =~= l.deep_view().skip(from as int + 1));
            assert(enc_info(rest[0]) == enc_va(l@[from as int].version_added@));
            assert(final(out)@ =~= old(out)@ + enc_infos(rest));
        }
    }
}

fn push_vs(out: &mut String, v: &VersionSupport)
    ensures
        final(out)@ == old(out)@ + enc_vs(v@),
{
    match v {
        VersionSupport::Single(info) => {
            out.append("1");
            push_va(out, &info.version_added);
            proof {
                reveal_strlit("1");
                assert(final(out)@ =~= old(out)@ + enc_vs(v@));
            }
        },
        VersionSupport::Multiple(infos) => {
            out.append("M");
            push_infos(out, infos, 0);
            proof {
                reveal_strlit("M");
                assert(infos.deep_view().skip(0) =~= infos.deep_view());
                assert(final(out)@ =~= old(out)@ + enc_vs(v@));
            }
        },
        VersionSupport::Unknown => {
            out.append("U");
            proof {
                reveal_strlit("U");
                assert(final(out)@ =~= old(out)@ + enc_vs(v@));
            }
        },
    }
}

fn push_opt_vs(out: &mut String, o: &Option<VersionSupport>)
    ensures
        final(out)@ == old(out)@ + enc_opt_vs(crate::bcd::option_view(o)),
{
    match o {
        None => {
            out.append("N");
            proof {
                reveal_strlit("N");
                assert(final(out)@ =~= old(out)@ + enc_opt_vs(None));
            }
        },
        Some(v) => {
            out.append("S");
            push_vs(out, v);
            proof {
                reveal_strlit("S");
                assert(final(out)@ =~= old(out)@ + enc_opt_vs(Some(v@)));
            }
        },
    }
}

/// Encodes a record for its per-feature cache file.
pub fn encode_compat(c: &Compatibility) -> (r: String)
    ensures
        r@ == enc_compat(c@),
{
    let mut out = String::new();
    push_opt_str(&mut out, &c.description);
    push_opt_str(&mut out, &c.mdn_url);
    push_bool(&mut out, c.status.deprecated);
    push_bool(&mut out, c.status.experimental);
    push_bool(&mut out, c.status.standard_track);
    push_opt_vs(&mut out, &c.support.chrome);
    push_opt_vs(&mut out, &c.support.firefox);
    push_opt_vs(&mut out, &c.support.safari);
    push_opt_vs(&mut out, &c.support.edge);
    proof {
        assert(out@ =~= enc_compat(c@));
    }
    out
}

fn decode_len(s: &str, pos: usize) -> (r: Option<(usize, usize)>)
    requires
        pos <= s@.len(),
    ensures
        match r {
            Some(p) => parse_len(s@, pos as int) == Some((p.0 as int, p.1 as int)) && pos < p.1
                <= s@.len(),
            None => parse_len(s@, pos as int) is None || parse_len(
                s@,
                pos as int,
            ).unwrap().0 > s@.len(),
        },
{
    let n = s.unicode_len();
    let mut e: usize = pos;
    let mut stop = false;
    while e < n && !stop
        invariant
            n == s@.len(),
            pos <= e <= n,
            forall|k: int| pos <= k < e ==> is_digit(#[trigger] s@[k]),
            stop ==> e < n && !is_digit(s@[e as int]),
        decreases n - e + (if stop { 0int } else { 1int }),
    {
        let c = s.get_char(e);
        let cu = c as u32;
        if 48 <= cu && cu <= 57 {
            e = e + 1;
        } else {
            stop = true;
        }
    }
    proof {
        lemma_digit_run_end_exact(s@, pos as int, e as int);
    }
    if e == pos {
        return None;
    }
    let ghost d = s@.subrange(pos as int, e as int);
    let mut acc: usize = 0;
    let mut i: usize = pos;
    while i < e
        invariant
            n == s@.len(),
            pos < e <= n,
            pos <= i <= e,
            digit_run_end(s@, pos as int) == e,
            d == s@.subrange(pos as int, e as int),
            forall|k: int| pos <= k < e ==> is_digit(#[trigger] s@[k]),
            acc as int == digits_value(d.take(i - pos)),
        decreases e - i,
    {
        let c = s.get_char(i);
        let cu = c as u32;
        proof {
            assert(d[i - pos] == s@[i as int]);
            assert(is_digit(s@[i as int]));
        }
        let dv = (cu - 48) as usize;
        if acc > (usize::MAX - dv) / 10 {
            proof {
                assert(d.take(i - pos + 1).drop_last() =~= d.take(i - pos));
                assert(d.take(i - pos + 1).last() == d[i - pos]);
                assert(digits_value(d.take(i - pos + 1)) > usize::MAX);
                assert forall|k: int| 0 <= k < d.len() implies is_digit(#[trigger] d[k]) by {
                    assert(d[k] == s@[pos + k]);
                }
                lemma_digits_value_grows(d, i - pos + 1);
                assert(digits_value(d.take(i - pos + 1)) <= digits_value(d));
                assert(digits_value(d) > usize::MAX >= s@.len());
                assert(parse_len(s@, pos as int) == Some((digits_value(d), e as int)));
                assert(parse_len(s@, pos as int).unwrap().0 > s@.len());
            }
            return None;
        }
        proof {
            assert(d.take(i - pos + 1).drop_last() =~= d.take(i - pos));
            assert(d.take(i - pos + 1).last() == d[i - pos]);
        }
        acc = acc * 10 + dv;
        i = i + 1;
    }
    proof {
        assert(d.take(e - pos) =~= d);
    }
    Some((acc, e))
}

fn decode_str(s: &str, pos: usize) -> (r: Option<(String, usize)>)
    requires
        pos <= s@.len(),
    ensures
        match r {
            Some(p) => parse_str(s@, pos as int) == Some((p.0@, p.1 as int)) && pos < p.1
                <= s@.len(),
            None => parse_str(s@, pos as int) is None,
        },
{
    let n = s.unicode_len();
    match decode_len(s, pos) {
        None => None,
        Some((ln, e)) => {
            if e < n && s.get_char(e) == ':' {
                if ln <= n - (e + 1) {
                    let sub = s.substring_char(e + 1, e + 1 + ln);
                    let owned = sub.to_owned();
                    Some((owned, e + 1 + ln))
                } else {
                    None
                }
            } else {
                None
            }
        },
    }
}

fn decode_bool(s: &str, pos: usize) -> (r: Option<(bool, usize)>)
    requires
        pos <= s@.len(),
    ensures
        match r {
            Some(p) => parse_bool(s@, pos as int) == Some((p.0, p.1 as int)) && pos < p.1
                <= s@.len(),
            None => parse_bool(s@, pos as int) is None,
        },
{
    if pos < s.unicode_len() {
        let c = s.get_char(pos);
        if c == 'T' {
            Some((true, pos + 1))
        } else if c == 'F' {
            Some((false, pos + 1))
        } else {
            None
        }
    } else {
        None
    }
}

fn decode_opt_str(s: &str, pos: usize) -> (r: Option<(Option<String>, usize)>)
    requires
        pos <= s@.len(),
    ensures
        match r {
            Some(p) => parse_opt_str(s@, pos as int) == Some((p.0.deep_view(), p.1 as int)) && pos
                < p.1 <= s@.len(),
            None => parse_opt_str(s@, pos as int) is None,
        },
{
    if pos < s.unicode_len() {
        let c = s.get_char(pos);
        if c == 'N' {
            Some((None, pos + 1))
        } else if c == 'S' {
            match decode_str(s, pos + 1) {
                Some((v, p)) => Some((Some(v), p)),
                None => None,
            }
        } else {
            None
        }
    } else {
        None
    }
}

fn decode_va(s: &str, pos: usize) -> (r: Option<(VersionAdded, usize)>)
    requires
        pos <= s@.len(),
    ensures
        match r {
            Some(p) => parse_va(s@, pos as int) == Some((p.0@, p.1 as int)) && pos < p.1
                <= s@.len(),
            None => parse_va(s@, pos as int) is None,
        },
{
    if pos < s.unicode_len() {
        let c = s.get_char(pos);
        if c == 'B' {
            match decode_bool(s, pos + 1) {
                Some((b, p)) => Some((VersionAdded::Bool(b), p)),
                None => None,
            }
        } else if c == 'V' {
            match decode_str(s, pos + 1) {
                Some((t, p)) => Some((VersionAdded::Text(t), p)),
                None => None,
            }
        } else if c == 'N' {
            Some((VersionAdded::Null, pos + 1))
        } else {
            None
        }
    } else {
        None
    }
}

fn decode_infos(s: &str, pos: usize) -> (r: Option<(Vec<SupportInfo>, usize)>)
    requires
        pos <= s@.len(),
    ensures
        match r {
            Some(p) => parse_infos(s@, pos as int) == Some((p.0.deep_view(), p.1 as int)) && pos
                < p.1 <= s@.len(),
            None => parse_infos(s@, pos as int) is None,
        },
    decreases s@.len() - pos,
{
    if pos >= s.unicode_len() {
        return None;
    }
    let c = s.get_char(pos);
    if c == 'e' {
        let empty: Vec<SupportInfo> = Vec::new();
        proof {
            assert(empty.deep_view() =~= Seq::<SupportInfoModel>::empty());
        }
        Some((empty, pos + 1))
    } else if c == 'i' {
        match decode_va(s, pos + 1) {
            None => None,
            Some((va, p2)) => {
                match decode_infos(s, p2) {
                    None => None,
                    Some((l, p3)) => {
                        let mut l2 = l;
                        let ghost pre = l2.deep_view();
                        l2.insert(0, SupportInfo { version_added: va });
                        proof {
                            assert(l2.deep_view() =~= seq![
                                SupportInfoModel { version_added: va@ },
                            ] + pre);
                        }
                        Some((l2, p3))
                    },
                }
            },
        }
    } else {
        None
    }
}

fn decode_vs(s: &str, pos: usize) -> (r: Option<(VersionSupport, usize)>)
    requires
        pos <= s@.len(),
    ensures
        match r {
            Some(p) => parse_vs(s@, pos as int) == Some((p.0@, p.1 as int)) && pos < p.1
                <= s@.len(),
            None => parse_vs(s@, pos as int) is None,
        },
{
    if pos < s.unicode_len() {
        let c = s.get_char(pos);
        if c == '1' {
            match decode_va(s, pos + 1) {
                Some((va, p)) => Some((VersionSupport::Single(SupportInfo { version_added: va }), p)),
                None => None,
            }
        } else if c == 'M' {
            match decode_infos(s, pos + 1) {
                Some((l, p)) => Some((VersionSupport::Multiple(l), p)),
                None => None,
            }
        } else if c == 'U' {
            Some((VersionSupport::Unknown, pos + 1))
        } else {
            None
        }
    } else {
        None
    }
}

fn decode_opt_vs(s: &str, pos: usize) -> (r: Option<(Option<VersionSupport>, usize)>)
    requires
        pos <= s@.len(),
    ensures
        match r {
            Some(p) => parse_opt_vs(s@, pos as int) == Some(
                (crate::bcd::option_view(&p.0), p.1 as int),
            ) && pos < p.1 <= s@.len(),
            None => parse_opt_vs(s@, pos as int) is None,
        },
{
    if pos < s.unicode_len() {
        let c = s.get_char(pos);
        if c == 'N' {
            Some((None, pos + 1))
        } else if c == 'S' {
            match decode_vs(s, pos + 1) {
                Some((v, p)) => Some((Some(v), p)),
                None => None,
            }
        } else {
            None
        }
    } else {
        None
    }
}

/// Decodes a per-feature cache file. Returns the record exactly when the
/// whole text is one encoded record.
pub fn decode_compat(s: &str) -> (r: Option<Compatibility>)
    ensures
        match r {
            Some(c) => parse_compat(s@, 0) == Some((c@, s@.len() as int)),
            None => parse_compat(s@, 0) is None || parse_compat(s@, 0).unwrap().1 != s@.len(),
        },
{
    let n = s.unicode_len();
    match decode_opt_str(s, 0) {
        None => None,
        Some((desc, p1)) => match decode_opt_str(s, p1) {
            None => None,
            Some((mdn, p2)) => match decode_bool(s, p2) {
                None => None,
                Some((dep, q1)) => match decode_bool(s, q1) {
                    None => None,
                    Some((exp, q2)) => match decode_bool(s, q2) {
                        None => None,
                        Some((tr, p3)) => match decode_opt_vs(s, p3) {
                            None => None,
                            Some((ch, p4)) => match decode_opt_vs(s, p4) {
                                None => None,
                                Some((ff, p5)) => match decode_opt_vs(s, p5) {
                                    None => None,
                                    Some((sa, p6)) => match decode_opt_vs(s, p6) {
                                        None => None,
                                        Some((ed, p7)) => {
                                            if p7 == n {
                                                Some(
                                                    Compatibility {
                                                        description: desc,
                                                        mdn_url: mdn,
                                                        status: Status {
                                                            deprecated: dep,
                                                            experimental: exp,
                                                            standard_track: tr,
                                                        },
                                                        support: SupportMap {
                                                            chrome: ch,
                                                            firefox: ff,
                                                            safari: sa,
                                                            edge: ed,
                                                        },
                                                    },
                                                )
                                            } else {
                                                None
                                            }
                                        },
                                    },
                                },
                            },
                        },
                    },
                },
            },
        },
    }
}

} // verus!
