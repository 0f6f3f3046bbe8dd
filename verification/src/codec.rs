//! The record codec: entities are persisted as self-describing text
//! documents made of labelled, length-prefixed fields. Encoding is total;
//! decoding is total and returns `None` on any malformed input, and
//! decoding an encoded record is proved to give the record back.

use vstd::prelude::*;
use vstd::string::*;
use crate::model::{
    Application, ApplicationView, ProxyEndpoint, ProxyEndpointView, RpcKey, RpcKeyView,
};
use crate::hexnum::{
    all_hex, hex_fixed, hex_seq_val, lemma_hex_fixed_props, lemma_hex_round_trip,
    lemma_hex_seq_val_bound, lemma_pow16_16, parse_hex_u64, pow16, u64_hex_fixed,
};

verus! {

/// A sequence short enough that its length fits the codec's fixed-width
/// length prefix (and any machine's `usize`).
pub open spec fn len_ok<T>(s: Seq<T>) -> bool {
    s.len() < 0x1_0000_0000_0000_0000
}

// ---------------------------------------------------------------------
// Spec-level encoders. Each writes one field; a record is the
// right-associated concatenation of labels and fields.
// ---------------------------------------------------------------------
/// A number as exactly 16 hexadecimal digits.
pub open spec fn enc_u64(n: u64) -> Seq<char> {
    hex_fixed(n as nat, 16)
}

/// A string as its length followed by its characters.
pub open spec fn enc_str(v: Seq<char>) -> Seq<char> {
    enc_u64(v.len() as u64) + v
}

pub open spec fn enc_bool(b: bool) -> Seq<char> {
    if b {
        seq!['T']
    } else {
        seq!['F']
    }
}

/// An optional number: `N`, or `S` followed by the number.
pub open spec fn enc_opt_u64(o: Option<u64>) -> Seq<char> {
    match o {
        Option::None => seq!['N'],
        Option::Some(v) => seq!['S'] + enc_u64(v),
    }
}

/// The members of a string list, one length-prefixed string each.
pub open spec fn enc_tag_items(tags: Seq<Seq<char>>) -> Seq<char>
    decreases tags.len(),
{
    if tags.len() == 0 {
        Seq::empty()
    } else {
        enc_str(tags.first()) + enc_tag_items(tags.drop_first())
    }
}

/// A string list: its length followed by its members.
pub open spec fn enc_tags(tags: Seq<Seq<char>>) -> Seq<char> {
    enc_u64(tags.len() as u64) + enc_tag_items(tags)
}

// ---------------------------------------------------------------------
// Spec-level decoders. Each consumes a prefix of the given sequence and
// returns the decoded value with the unconsumed rest, or `None`.
// ---------------------------------------------------------------------
/// Consumes the exact literal `l`.
pub open spec fn dec_lit(s: Seq<char>, l: Seq<char>) -> Option<Seq<char>> {
    if l.len() <= s.len() && s.subrange(0, l.len() as int) == l {
        Option::Some(s.skip(l.len() as int))
    } else {
        Option::None
    }
}

/// Consumes 16 hexadecimal digits.
pub open spec fn dec_u64(s: Seq<char>) -> Option<(u64, Seq<char>)> {
    if 16 <= s.len() && all_hex(s.subrange(0, 16)) {
        Option::Some((hex_seq_val(s.subrange(0, 16)) as u64, s.skip(16)))
    } else {
        Option::None
    }
}

/// Consumes a length prefix and that many characters.
pub open spec fn dec_str(s: Seq<char>) -> Option<(Seq<char>, Seq<char>)> {
    match dec_u64(s) {
        Option::None => Option::None,
        Option::Some((n, r)) => if n <= r.len() {
            Option::Some((r.subrange(0, n as int), r.skip(n as int)))
        } else {
            Option::None
        },
    }
}

pub open spec fn dec_bool(s: Seq<char>) -> Option<(bool, Seq<char>)> {
    if s.len() > 0 && s[0] == 'T' {
        Option::Some((true, s.skip(1)))
    } else if s.len() > 0 && s[0] == 'F' {
        Option::Some((false, s.skip(1)))
    } else {
        Option::None
    }
}

pub open spec fn dec_opt_u64(s: Seq<char>) -> Option<(Option<u64>, Seq<char>)> {
    if s.len() > 0 && s[0] == 'N' {
        Option::Some((Option::None, s.skip(1)))
    } else if s.len() > 0 && s[0] == 'S' {
        match dec_u64(s.skip(1)) {
            Option::None => Option::None,
            Option::Some((v, r)) => Option::Some((Option::Some(v), r)),
        }
    } else {
        Option::None
    }
}

/// Consumes exactly `n` length-prefixed strings.
pub open spec fn dec_tag_items(s: Seq<char>, n: nat) -> Option<(Seq<Seq<char>>, Seq<char>)>
    decreases n,
{
    if n == 0 {
        Option::Some((Seq::empty(), s))
    } else {
        match dec_str(s) {
            Option::None => Option::None,
            Option::Some((v, r)) => match dec_tag_items(r, (n - 1) as nat) {
                Option::None => Option::None,
                Option::Some((vs, r2)) => Option::Some((seq![v] + vs, r2)),
            },
        }
    }
}

pub open spec fn dec_tags(s: Seq<char>) -> Option<(Seq<Seq<char>>, Seq<char>)> {
    match dec_u64(s) {
        Option::None => Option::None,
        Option::Some((n, r)) => dec_tag_items(r, n as nat),
    }
}

// ---------------------------------------------------------------------
// Round-trip lemmas: decoding what an encoder wrote consumes exactly the
// encoder's output and yields the encoded value.
// ---------------------------------------------------------------------
pub proof fn lemma_dec_lit(l: Seq<char>, rest: Seq<char>)
    ensures
        dec_lit(l + rest, l) == Option::Some(rest),
{
    let s = l + rest;
    assert(s.subrange(0, l.len() as int) =~= l);
    assert(s.skip(l.len() as int) =~= rest);
}

pub proof fn lemma_dec_u64(n: u64, rest: Seq<char>)
    ensures
        dec_u64(enc_u64(n) + rest) == Option::Some((n, rest)),
{
    let e = enc_u64(n);
    let s = e + rest;
    lemma_hex_fixed_props(n as nat, 16);
    lemma_pow16_16();
    lemma_hex_round_trip(n as nat, 16);
    assert(s.subrange(0, 16) =~= e);
    assert(s.skip(16) =~= rest);
}

pub proof fn lemma_dec_str(v: Seq<char>, rest: Seq<char>)
    requires
        len_ok(v),
    ensures
        dec_str(enc_str(v) + rest) == Option::Some((v, rest)),
{
    let s = enc_str(v) + rest;
    lemma_pow16_16();
    let n = v.len() as u64;
    assert(s =~= enc_u64(n) + (v + rest));
    lemma_dec_u64(n, v + rest);
    assert((v + rest).subrange(0, n as int) =~= v);
    assert((v + rest).skip(n as int) =~= rest);
}

pub proof fn lemma_dec_bool(b: bool, rest: Seq<char>)
    ensures
        dec_bool(enc_bool(b) + rest) == Option::Some((b, rest)),
{
    let s = enc_bool(b) + rest;
    assert(s.skip(1) =~= rest);
}

pub proof fn lemma_dec_opt_u64(o: Option<u64>, rest: Seq<char>)
    ensures
        dec_opt_u64(enc_opt_u64(o) + rest) == Option::Some((o, rest)),
{
    let s = enc_opt_u64(o) + rest;
    match o {
        Option::None => {
            assert(s.skip(1) =~= rest);
        },
        Option::Some(v) => {
            assert(s.skip(1) =~= enc_u64(v) + rest);
            lemma_dec_u64(v, rest);
        },
    }
}

pub proof fn lemma_dec_tag_items(tags: Seq<Seq<char>>, rest: Seq<char>)
    requires
        forall|i: int| 0 <= i < tags.len() ==> len_ok(#[trigger] tags[i]),
    ensures
        dec_tag_items(enc_tag_items(tags) + rest, tags.len()) == Option::Some((tags, rest)),
    decreases tags.len(),
{
    let s = enc_tag_items(tags) + rest;
    if tags.len() == 0 {
        assert(s =~= rest);
        assert(dec_tag_items(s, 0) == Option::Some((Seq::<Seq<char>>::empty(), s)));
        assert(tags =~= Seq::<Seq<char>>::empty());
    } else {
        let first = tags.first();
        let tail = tags.drop_first();
        assert(s =~= enc_str(first) + (enc_tag_items(tail) + rest));
        lemma_dec_str(first, enc_tag_items(tail) + rest);
        assert(forall|i: int| 0 <= i < tail.len() ==> len_ok(#[trigger] tail[i]));
        lemma_dec_tag_items(tail, rest);
        assert(seq![first] + tail =~= tags);
    }
}

pub proof fn lemma_dec_tags(tags: Seq<Seq<char>>, rest: Seq<char>)
    requires
        len_ok(tags),
        forall|i: int| 0 <= i < tags.len() ==> len_ok(#[trigger] tags[i]),
    ensures
        dec_tags(enc_tags(tags) + rest) == Option::Some((tags, rest)),
{
    let s = enc_tags(tags) + rest;
    let n = tags.len() as u64;
    lemma_pow16_16();
    assert(s =~= enc_u64(n) + (enc_tag_items(tags) + rest));
    lemma_dec_u64(n, enc_tag_items(tags) + rest);
    lemma_dec_tag_items(tags, rest);
}

// ---------------------------------------------------------------------
// Executable decoding primitives. Each works at a position inside the
// text and matches the spec decoder applied to the text's suffix there.
// ---------------------------------------------------------------------
/// Consumes the literal `lit` at `pos`.
pub fn eat_lit(s: &str, pos: usize, lit: &str) -> (r: Option<usize>)
    requires
        pos <= s@.len(),
        s@.len() <= usize::MAX,
    ensures
        r matches Some(p) ==> pos <= p <= s@.len() && dec_lit(s@.skip(pos as int), lit@)
            == Option::Some(s@.skip(p as int)),
        r is None ==> dec_lit(s@.skip(pos as int), lit@) is None,
{
    let s_len = s.unicode_len();
    let lit_len = lit.unicode_len();
    if s_len - pos < lit_len {
        return None;
    }
    let mut i: usize = 0;
    while i < lit_len
        invariant
            i <= lit_len,
            pos + lit_len <= s@.len(),
            s@.len() <= usize::MAX,
            lit_len == lit@.len(),
            forall|j: int| 0 <= j < i ==> s@[pos + j] == lit@[j],
        decreases lit_len - i,
    {
        let a = s.get_char(pos + i);
        let b = lit.get_char(i);
        if a != b {
            proof {
                let suf = s@.skip(pos as int);
                assert(suf.subrange(0, lit@.len() as int)[i as int] == s@[pos + i]);
                assert(suf.subrange(0, lit@.len() as int) != lit@);
            }
            return None;
        }
        i = i + 1;
    }
    proof {
        let suf = s@.skip(pos as int);
        assert(suf.subrange(0, lit@.len() as int) =~= lit@);
        assert(suf.skip(lit@.len() as int) =~= s@.skip(pos + lit_len as int));
    }
    Some(pos + lit_len)
}

/// Reads a 16-digit hexadecimal number at `pos`.
pub fn read_u64(s: &str, pos: usize) -> (r: Option<(u64, usize)>)
    requires
        pos <= s@.len(),
        s@.len() <= usize::MAX,
    ensures
        r matches Some((v, p)) ==> pos <= p <= s@.len() && dec_u64(s@.skip(pos as int))
            == Option::Some((v, s@.skip(p as int))),
        r is None ==> dec_u64(s@.skip(pos as int)) is None,
{
    let s_len = s.unicode_len();
    if s_len - pos < 16 {
        return None;
    }
    proof {
        assert(s@.skip(pos as int).subrange(0, 16) =~= s@.subrange(pos as int, pos + 16));
    }
    match parse_hex_u64(s, pos, 16) {
        None => None,
        Some(v) => {
            proof {
                let sub = s@.subrange(pos as int, pos + 16);
                lemma_hex_seq_val_bound(sub);
                lemma_pow16_16();
                assert(s@.skip(pos as int).skip(16) =~= s@.skip(pos + 16 as int));
            }
            Some((v, pos + 16))
        },
    }
}

/// Reads a length-prefixed string at `pos`.
pub fn read_str(s: &str, pos: usize) -> (r: Option<(String, usize)>)
    requires
        pos <= s@.len(),
        s@.len() <= usize::MAX,
    ensures
        r matches Some((v, p)) ==> pos <= p <= s@.len() && dec_str(s@.skip(pos as int))
            == Option::Some((v@, s@.skip(p as int))),
        r is None ==> dec_str(s@.skip(pos as int)) is None,
{
    let s_len = s.unicode_len();
    match read_u64(s, pos) {
        None => None,
        Some((n, p)) => {
            if n > (s_len - p) as u64 {
                return None;
            }
            let l = n as usize;
            let sub = s.substring_char(p, p + l);
            let v = String::from_str(sub);
            proof {
                let r = s@.skip(p as int);
                assert(r.subrange(0, n as int) =~= s@.subrange(p as int, p + l));
                assert(r.skip(n as int) =~= s@.skip(p + l as int));
            }
            Some((v, p + l))
        },
    }
}

/// Reads a boolean flag at `pos`.
pub fn read_bool(s: &str, pos: usize) -> (r: Option<(bool, usize)>)
    requires
        pos <= s@.len(),
        s@.len() <= usize::MAX,
    ensures
        r matches Some((v, p)) ==> pos <= p <= s@.len() && dec_bool(s@.skip(pos as int))
            == Option::Some((v, s@.skip(p as int))),
        r is None ==> dec_bool(s@.skip(pos as int)) is None,
{
    let s_len = s.unicode_len();
    if pos >= s_len {
        return None;
    }
    let c = s.get_char(pos);
    proof {
        assert(s@.skip(pos as int)[0] == s@[pos as int]);
        assert(s@.skip(pos as int).skip(1) =~= s@.skip(pos + 1 as int));
    }
    if c == 'T' {
        Some((true, pos + 1))
    } else if c == 'F' {
        Some((false, pos + 1))
    } else {
        None
    }
}

/// Reads an optional number at `pos`.
pub fn read_opt_u64(s: &str, pos: usize) -> (r: Option<(Option<u64>, usize)>)
    requires
        pos <= s@.len(),
        s@.len() <= usize::MAX,
    ensures
        r matches Some((v, p)) ==> pos <= p <= s@.len() && dec_opt_u64(s@.skip(pos as int))
            == Option::Some((v, s@.skip(p as int))),
        r is None ==> dec_opt_u64(s@.skip(pos as int)) is None,
{
    let s_len = s.unicode_len();
    if pos >= s_len {
        return None;
    }
    let c = s.get_char(pos);
    proof {
        assert(s@.skip(pos as int)[0] == s@[pos as int]);
        assert(s@.skip(pos as int).skip(1) =~= s@.skip(pos + 1 as int));
    }
    if c == 'N' {
        Some((None, pos + 1))
    } else if c == 'S' {
        match read_u64(s, pos + 1) {
            None => None,
            Some((v, p)) => Some((Some(v), p)),
        }
    } else {
        None
    }
}

/// Reads exactly `n` length-prefixed strings at `pos`.
pub fn read_tag_items(s: &str, pos: usize, n: u64) -> (r: Option<(Vec<String>, usize)>)
    requires
        pos <= s@.len(),
        s@.len() <= usize::MAX,
    ensures
        r matches Some((v, p)) ==> pos <= p <= s@.len() && dec_tag_items(
            s@.skip(pos as int),
            n as nat,
        ) == Option::Some((v.deep_view(), s@.skip(p as int))),
        r is None ==> dec_tag_items(s@.skip(pos as int), n as nat) is None,
    decreases n,
{
    if n == 0 {
        let v: Vec<String> = Vec::new();
        proof {
            assert(v.deep_view() =~= Seq::<Seq<char>>::empty());
        }
        return Some((v, pos));
    }
    match read_str(s, pos) {
        None => None,
        Some((first, p)) => {
            match read_tag_items(s, p, n - 1) {
                None => None,
                Some((mut vs, p2)) => {
                    let ghost old_vs = vs.deep_view();
                    vs.insert(0, first);
                    proof {
                        assert(vs.deep_view() =~= seq![first@] + old_vs);
                    }
                    Some((vs, p2))
                },
            }
        },
    }
}

/// Reads a string list at `pos`.
pub fn read_tags(s: &str, pos: usize) -> (r: Option<(Vec<String>, usize)>)
    requires
        pos <= s@.len(),
        s@.len() <= usize::MAX,
    ensures
        r matches Some((v, p)) ==> pos <= p <= s@.len() && dec_tags(s@.skip(pos as int))
            == Option::Some((v.deep_view(), s@.skip(p as int))),
        r is None ==> dec_tags(s@.skip(pos as int)) is None,
{
    match read_u64(s, pos) {
        None => None,
        Some((n, p)) => read_tag_items(s, p, n),
    }
}

// ---------------------------------------------------------------------
// Executable encoding primitives.
// ---------------------------------------------------------------------
/// Appends a number as 16 hexadecimal digits.
pub fn append_u64(out: &mut String, n: u64)
    ensures
        final(out)@ == old(out)@ + enc_u64(n),
{
    let e = u64_hex_fixed(n, 16);
    out.append(e.as_str());
}

/// Appends a length-prefixed string.
pub fn append_str_field(out: &mut String, v: &str)
    ensures
        final(out)@ == old(out)@ + enc_str(v@),
        len_ok(v@),
{
    let l = v.unicode_len();
    append_u64(out, l as u64);
    out.append(v);
}

/// Appends a boolean flag.
pub fn append_bool(out: &mut String, b: bool)
    ensures
        final(out)@ == old(out)@ + enc_bool(b),
{
    if b {
        proof {
            reveal_strlit("T");
        }
        out.append("T");
        proof {
            assert(out@ =~= old(out)@ + enc_bool(b));
        }
    } else {
        proof {
            reveal_strlit("F");
        }
        out.append("F");
        proof {
            assert(out@ =~= old(out)@ + enc_bool(b));
        }
    }
}

/// Appends an optional number.
pub fn append_opt_u64(out: &mut String, o: &Option<u64>)
    ensures
        final(out)@ == old(out)@ + enc_opt_u64(*o),
{
    match o {
        None => {
            proof {
                reveal_strlit("N");
            }
            out.append("N");
            proof {
                assert(out@ =~= old(out)@ + enc_opt_u64(Option::<u64>::None));
            }
        },
        Some(v) => {
            proof {
                reveal_strlit("S");
            }
            out.append("S");
            append_u64(out, *v);
            proof {
                assert(out@ =~= old(out)@ + enc_opt_u64(Option::Some(*v)));
            }
        },
    }
}

/// Appends the members of `tags` from index `i` on.
pub fn append_tag_items(out: &mut String, tags: &Vec<String>, i: usize)
    requires
        i <= tags@.len(),
    ensures
        final(out)@ == old(out)@ + enc_tag_items(tags.deep_view().skip(i as int)),
        forall|j: int| i <= j < tags@.len() ==> len_ok(#[trigger] tags.deep_view()[j]),
    decreases tags@.len() - i,
{
    if i == tags.len() {
        proof {
            assert(tags.deep_view().skip(i as int) =~= Seq::<Seq<char>>::empty());
            assert(out@ =~= old(out)@ + enc_tag_items(tags.deep_view().skip(i as int)));
        }
    } else {
        append_str_field(out, tags[i].as_str());
        append_tag_items(out, tags, i + 1);
        proof {
            let dv = tags.deep_view();
            let suf = dv.skip(i as int);
            assert(suf.first() == dv[i as int]);
            assert(suf.drop_first() =~= dv.skip(i + 1));
            assert(out@ =~= old(out)@ + enc_tag_items(suf));
        }
    }
}

/// Appends a string list.
pub fn append_tags(out: &mut String, tags: &Vec<String>)
    ensures
        final(out)@ == old(out)@ + enc_tags(tags.deep_view()),
        len_ok(tags.deep_view()),
        forall|j: int| 0 <= j < tags@.len() ==> len_ok(#[trigger] tags.deep_view()[j]),
{
    let n = tags.len();
    append_u64(out, n as u64);
    append_tag_items(out, tags, 0);
    proof {
        assert(tags.deep_view().skip(0) =~= tags.deep_view());
        assert(out@ =~= old(out)@ + enc_tags(tags.deep_view()));
    }
}

// ---------------------------------------------------------------------
// The application record.
// ---------------------------------------------------------------------
/// An application record: its labelled fields in a fixed order.
pub open spec fn spec_enc_app(a: ApplicationView) -> Seq<char> {
    "app;name="@ + (enc_str(a.name) + (";slug="@ + (enc_str(a.slug) + (";path="@ + (enc_str(
        a.proxy.path,
    ) + (";url="@ + (enc_str(a.proxy.url) + (";strip="@ + (enc_bool(a.proxy.strip) + (";active="@
        + (enc_bool(a.active) + ";"@)))))))))))
}

/// Decodes an application record; the whole text must be consumed.
pub open spec fn spec_dec_app(s: Seq<char>) -> Option<ApplicationView> {
    match dec_lit(s, "app;name="@) {
        Option::None => Option::None,
        Option::Some(r1) => match dec_str(r1) {
            Option::None => Option::None,
            Option::Some((name, r2)) => match dec_lit(r2, ";slug="@) {
                Option::None => Option::None,
                Option::Some(r3) => match dec_str(r3) {
                    Option::None => Option::None,
                    Option::Some((slug, r4)) => match dec_lit(r4, ";path="@) {
                        Option::None => Option::None,
                        Option::Some(r5) => match dec_str(r5) {
                            Option::None => Option::None,
                            Option::Some((path, r6)) => match dec_lit(r6, ";url="@) {
                                Option::None => Option::None,
                                Option::Some(r7) => match dec_str(r7) {
                                    Option::None => Option::None,
                                    Option::Some((url, r8)) => match dec_lit(r8, ";strip="@) {
                                        Option::None => Option::None,
                                        Option::Some(r9) => match dec_bool(r9) {
                                            Option::None => Option::None,
                                            Option::Some((strip, r10)) => match dec_lit(
                                                r10,
                                                ";active="@,
                                            ) {
                                                Option::None => Option::None,
                                                Option::Some(r11) => match dec_bool(r11) {
                                                    Option::None => Option::None,
                                                    Option::Some((active, r12)) => match dec_lit(
                                                        r12,
                                                        ";"@,
                                                    ) {
                                                        Option::None => Option::None,
                                                        Option::Some(r13) => if r13.len() == 0 {
                                                            Option::Some(
                                                                ApplicationView {
                                                                    name,
                                                                    slug,
                                                                    proxy: ProxyEndpointView {
                                                                        path,
                                                                        url,
                                                                        strip,
                                                                    },
                                                                    active,
                                                                },
                                                            )
                                                        } else {
                                                            Option::None
                                                        },
                                                    },
                                                },
                                            },
                                        },
                                    },
                                },
                            },
                        },
                    },
                },
            },
        },
    }
}

/// Every application record decodes back to the application it encodes.
pub proof fn lemma_app_round_trip(a: ApplicationView)
    requires
        len_ok(a.name),
        len_ok(a.slug),
        len_ok(a.proxy.path),
        len_ok(a.proxy.url),
    ensures
        spec_dec_app(spec_enc_app(a)) == Option::Some(a),
{
    let s7: Seq<char> = ";"@;
    let s6b = enc_bool(a.active) + s7;
    let s6 = ";active="@ + s6b;
    let s5b = enc_bool(a.proxy.strip) + s6;
    let s5 = ";strip="@ + s5b;
    let s4b = enc_str(a.proxy.url) + s5;
    let s4 = ";url="@ + s4b;
    let s3b = enc_str(a.proxy.path) + s4;
    let s3 = ";path="@ + s3b;
    let s2b = enc_str(a.slug) + s3;
    let s2 = ";slug="@ + s2b;
    let s1b = enc_str(a.name) + s2;
    let s = "app;name="@ + s1b;
    assert(spec_enc_app(a) == s);
    lemma_dec_lit("app;name="@, s1b);
    lemma_dec_str(a.name, s2);
    lemma_dec_lit(";slug="@, s2b);
    lemma_dec_str(a.slug, s3);
    lemma_dec_lit(";path="@, s3b);
    lemma_dec_str(a.proxy.path, s4);
    lemma_dec_lit(";url="@, s4b);
    lemma_dec_str(a.proxy.url, s5);
    lemma_dec_lit(";strip="@, s5b);
    lemma_dec_bool(a.proxy.strip, s6);
    lemma_dec_lit(";active="@, s6b);
    lemma_dec_bool(a.active, s7);
    lemma_dec_lit(";"@, Seq::<char>::empty());
    assert(";"@ + Seq::<char>::empty() =~= ";"@);
}

/// Writes the record for an application.
#[verifier::rlimit(60)]
pub fn encode_application(a: &Application) -> (r: String)
    ensures
        r@ == spec_enc_app(a@),
        len_ok(a@.name),
        len_ok(a@.slug),
        len_ok(a@.proxy.path),
        len_ok(a@.proxy.url),
{
    let mut out = String::from_str("app;name=");
    append_str_field(&mut out, a.name.as_str());
    out.append(";slug=");
    append_str_field(&mut out, a.slug.as_str());
    out.append(";path=");
    append_str_field(&mut out, a.proxy.path.as_str());
    out.append(";url=");
    append_str_field(&mut out, a.proxy.url.as_str());
    out.append(";strip=");
    append_bool(&mut out, a.proxy.strip);
    out.append(";active=");
    append_bool(&mut out, a.active);
    out.append(";");
    proof {
        assert(out@ =~= spec_enc_app(a@));
    }
    out
}

/// Reads an application back from a record; `None` on any malformed
/// input.
pub fn decode_application(s: &str) -> (r: Option<Application>)
    ensures
        r is Some <==> spec_dec_app(s@) is Some,
        r matches Some(a) ==> spec_dec_app(s@) == Option::Some(a@),
{
    let n = s.unicode_len();
    proof {
        assert(s@.skip(0) =~= s@);
    }
    let p1 = match eat_lit(s, 0, "app;name=") {
        None => {
            return None;
        },
        Some(p) => p,
    };
    let (name, p2) = match read_str(s, p1) {
        None => {
            return None;
        },
        Some(x) => x,
    };
    let p3 = match eat_lit(s, p2, ";slug=") {
        None => {
            return None;
        },
        Some(p) => p,
    };
    let (slug, p4) = match read_str(s, p3) {
        None => {
            return None;
        },
        Some(x) => x,
    };
    let p5 = match eat_lit(s, p4, ";path=") {
        None => {
            return None;
        },
        Some(p) => p,
    };
    let (path, p6) = match read_str(s, p5) {
        None => {
            return None;
        },
        Some(x) => x,
    };
    let p7 = match eat_lit(s, p6, ";url=") {
        None => {
            return None;
        },
        Some(p) => p,
    };
    let (url, p8) = match read_str(s, p7) {
        None => {
            return None;
        },
        Some(x) => x,
    };
    let p9 = match eat_lit(s, p8, ";strip=") {
        None => {
            return None;
        },
        Some(p) => p,
    };
    let (strip, p10) = match read_bool(s, p9) {
        None => {
            return None;
        },
        Some(x) => x,
    };
    let p11 = match eat_lit(s, p10, ";active=") {
        None => {
            return None;
        },
        Some(p) => p,
    };
    let (active, p12) = match read_bool(s, p11) {
        None => {
            return None;
        },
        Some(x) => x,
    };
    let p13 = match eat_lit(s, p12, ";") {
        None => {
            return None;
        },
        Some(p) => p,
    };
    if p13 != n {
        return None;
    }
    Some(Application { name, slug, proxy: ProxyEndpoint { path, url, strip }, active })
}

// ---------------------------------------------------------------------
// The key record.
// ---------------------------------------------------------------------
/// A key record: its labelled fields in a fixed order.
pub open spec fn spec_enc_key(k: RpcKeyView) -> Seq<char> {
    "key;id="@ + (enc_str(k.key_id) + (";hash="@ + (enc_str(k.key_hash) + (";app="@ + (enc_str(
        k.app,
    ) + (";tags="@ + (enc_tags(k.tags) + (";expires="@ + (enc_u64(k.expires) + (";active="@ + (
    enc_bool(k.active) + (";qs="@ + (enc_opt_u64(k.quota_second) + (";qm="@ + (enc_opt_u64(
        k.quota_minute,
    ) + (";qh="@ + (enc_opt_u64(k.quota_hour) + (";qd="@ + (enc_opt_u64(k.quota_day) + (";qw="@ + (
    enc_opt_u64(k.quota_week) + (";qmo="@ + (enc_opt_u64(k.quota_month) + (";qy="@ + (enc_opt_u64(
        k.quota_year,
    ) + ";"@)))))))))))))))))))))))))
}

/// Decodes a key record; the whole text must be consumed.
pub open spec fn spec_dec_key(s: Seq<char>) -> Option<RpcKeyView> {
    match dec_lit(s, "key;id="@) {
        Option::None => Option::None,
        Option::Some(r1) => match dec_str(r1) {
            Option::None => Option::None,
            Option::Some((key_id, r2)) => match dec_lit(r2, ";hash="@) {
                Option::None => Option::None,
                Option::Some(r3) => match dec_str(r3) {
                    Option::None => Option::None,
                    Option::Some((key_hash, r4)) => match dec_lit(r4, ";app="@) {
                        Option::None => Option::None,
                        Option::Some(r5) => match dec_str(r5) {
                            Option::None => Option::None,
                            Option::Some((app, r6)) => match dec_lit(r6, ";tags="@) {
                                Option::None => Option::None,
                                Option::Some(r7) => match dec_tags(r7) {
                                    Option::None => Option::None,
                                    Option::Some((tags, r8)) => match dec_lit(r8, ";expires="@) {
                                        Option::None => Option::None,
                                        Option::Some(r9) => match dec_u64(r9) {
                                            Option::None => Option::None,
                                            Option::Some((expires, r10)) => spec_dec_key_rest(
                                                RpcKeyView {
                                                    key_id,
                                                    key_hash,
                                                    app,
                                                    tags,
                                                    expires,
                                                    active: false,
                                                    quota_second: Option::None,
                                                    quota_minute: Option::None,
                                                    quota_hour: Option::None,
                                                    quota_day: Option::None,
                                                    quota_week: Option::None,
                                                    quota_month: Option::None,
                                                    quota_year: Option::None,
                                                },
                                                r10,
                                            ),
                                        },
                                    },
                                },
                            },
                        },
                    },
                },
            },
        },
    }
}

/// Decodes the tail of a key record, from the activity flag on, into the
/// partly filled view `k`.
pub open spec fn spec_dec_key_rest(k: RpcKeyView, s: Seq<char>) -> Option<RpcKeyView> {
    match dec_lit(s, ";active="@) {
        Option::None => Option::None,
        Option::Some(r1) => match dec_bool(r1) {
            Option::None => Option::None,
            Option::Some((active, r2)) => match dec_lit(r2, ";qs="@) {
                Option::None => Option::None,
                Option::Some(r3) => match dec_opt_u64(r3) {
                    Option::None => Option::None,
                    Option::Some((qs, r4)) => match dec_lit(r4, ";qm="@) {
                        Option::None => Option::None,
                        Option::Some(r5) => match dec_opt_u64(r5) {
                            Option::None => Option::None,
                            Option::Some((qm, r6)) => match dec_lit(r6, ";qh="@) {
                                Option::None => Option::None,
                                Option::Some(r7) => match dec_opt_u64(r7) {
                                    Option::None => Option::None,
                                    Option::Some((qh, r8)) => match dec_lit(r8, ";qd="@) {
                                        Option::None => Option::None,
                                        Option::Some(r9) => match dec_opt_u64(r9) {
                                            Option::None => Option::None,
                                            Option::Some((qd, r10)) => match dec_lit(r10, ";qw="@) {
                                                Option::None => Option::None,
                                                Option::Some(r11) => match dec_opt_u64(r11) {
                                                    Option::None => Option::None,
                                                    Option::Some((qw, r12)) => match dec_lit(
                                                        r12,
                                                        ";qmo="@,
                                                    ) {
                                                        Option::None => Option::None,
                                                        Option::Some(r13) => match dec_opt_u64(
                                                            r13,
                                                        ) {
                                                            Option::None => Option::None,
                                                            Option::Some((qmo, r14)) => match dec_lit(
                                                                r14,
                                                                ";qy="@,
                                                            ) {
                                                                Option::None => Option::None,
                                                                Option::Some(r15) => match dec_opt_u64(
                                                                    r15,
                                                                ) {
                                                                    Option::None => Option::None,
                                                                    Option::Some(
                                                                        (qy, r16),
                                                                    ) => match dec_lit(r16, ";"@) {
                                                                        Option::None
                                                                            => Option::None,
                                                                        Option::Some(r17) => if r17.len()
                                                                            == 0 {
                                                                            Option::Some(
                                                                                RpcKeyView {
                                                                                    active,
                                                                                    quota_second:
                                                                                        qs,
                                                                                    quota_minute:
                                                                                        qm,
                                                                                    quota_hour: qh,
                                                                                    quota_day: qd,
                                                                                    quota_week: qw,
                                                                                    quota_month:
                                                                                        qmo,
                                                                                    quota_year: qy,
                                                                                    ..k
                                                                                },
                                                                            )
                                                                        } else {
                                                                            Option::None
                                                                        },
                                                                    },
                                                                },
                                                            },
                                                        },
                                                    },
                                                },
                                            },
                                        },
                                    },
                                },
                            },
                        },
                    },
                },
            },
        },
    }
}

/// The tail of every key record decodes back into the fields it
/// encodes, leaving the partly filled view's other fields alone.
#[verifier::rlimit(60)]
proof fn lemma_key_round_trip_rest(k: RpcKeyView, base: RpcKeyView)
    requires
        base == (RpcKeyView {
            active: false,
            quota_second: Option::None,
            quota_minute: Option::None,
            quota_hour: Option::None,
            quota_day: Option::None,
            quota_week: Option::None,
            quota_month: Option::None,
            quota_year: Option::None,
            ..k
        }),
    ensures
        spec_dec_key_rest(
            base,
            ";active="@ + (enc_bool(k.active) + (";qs="@ + (enc_opt_u64(k.quota_second) + (";qm="@
                + (enc_opt_u64(k.quota_minute) + (";qh="@ + (enc_opt_u64(k.quota_hour) + (";qd="@
                + (enc_opt_u64(k.quota_day) + (";qw="@ + (enc_opt_u64(k.quota_week) + (";qmo="@ + (
            enc_opt_u64(k.quota_month) + (";qy="@ + (enc_opt_u64(k.quota_year)
                + ";"@))))))))))))))),
        ) == Option::Some(k),
{
    let s14: Seq<char> = ";"@;
    let s13b = enc_opt_u64(k.quota_year) + s14;
    let s13 = ";qy="@ + s13b;
    let s12b = enc_opt_u64(k.quota_month) + s13;
    let s12 = ";qmo="@ + s12b;
    let s11b = enc_opt_u64(k.quota_week) + s12;
    let s11 = ";qw="@ + s11b;
    let s10b = enc_opt_u64(k.quota_day) + s11;
    let s10 = ";qd="@ + s10b;
    let s9b = enc_opt_u64(k.quota_hour) + s10;
    let s9 = ";qh="@ + s9b;
    let s8b = enc_opt_u64(k.quota_minute) + s9;
    let s8 = ";qm="@ + s8b;
    let s7b = enc_opt_u64(k.quota_second) + s8;
    let s7 = ";qs="@ + s7b;
    let s6b = enc_bool(k.active) + s7;
    let s6 = ";active="@ + s6b;
    lemma_dec_lit(";active="@, s6b);
    lemma_dec_bool(k.active, s7);
    lemma_dec_lit(";qs="@, s7b);
    lemma_dec_opt_u64(k.quota_second, s8);
    lemma_dec_lit(";qm="@, s8b);
    lemma_dec_opt_u64(k.quota_minute, s9);
    lemma_dec_lit(";qh="@, s9b);
    lemma_dec_opt_u64(k.quota_hour, s10);
    lemma_dec_lit(";qd="@, s10b);
    lemma_dec_opt_u64(k.quota_day, s11);
    lemma_dec_lit(";qw="@, s11b);
    lemma_dec_opt_u64(k.quota_week, s12);
    lemma_dec_lit(";qmo="@, s12b);
    lemma_dec_opt_u64(k.quota_month, s13);
    lemma_dec_lit(";qy="@, s13b);
    lemma_dec_opt_u64(k.quota_year, s14);
    lemma_dec_lit(";"@, Seq::<char>::empty());
    assert(";"@ + Seq::<char>::empty() =~= ";"@);
}

/// Every key record decodes back to the key it encodes.
#[verifier::rlimit(60)]
pub proof fn lemma_key_round_trip(k: RpcKeyView)
    requires
        len_ok(k.key_id),
        len_ok(k.key_hash),
        len_ok(k.app),
        len_ok(k.tags),
        forall|i: int| 0 <= i < k.tags.len() ==> len_ok(#[trigger] k.tags[i]),
    ensures
        spec_dec_key(spec_enc_key(k)) == Option::Some(k),
{
    let s6 = ";active="@ + (enc_bool(k.active) + (";qs="@ + (enc_opt_u64(k.quota_second) + (";qm="@
        + (enc_opt_u64(k.quota_minute) + (";qh="@ + (enc_opt_u64(k.quota_hour) + (";qd="@ + (
    enc_opt_u64(k.quota_day) + (";qw="@ + (enc_opt_u64(k.quota_week) + (";qmo="@ + (enc_opt_u64(
        k.quota_month,
    ) + (";qy="@ + (enc_opt_u64(k.quota_year) + ";"@)))))))))))))));
    let s5b = enc_u64(k.expires) + s6;
    let s5 = ";expires="@ + s5b;
    let s4b = enc_tags(k.tags) + s5;
    let s4 = ";tags="@ + s4b;
    let s3b = enc_str(k.app) + s4;
    let s3 = ";app="@ + s3b;
    let s2b = enc_str(k.key_hash) + s3;
    let s2 = ";hash="@ + s2b;
    let s1b = enc_str(k.key_id) + s2;
    let s = "key;id="@ + s1b;
    assert(spec_enc_key(k) == s);
    lemma_dec_lit("key;id="@, s1b);
    lemma_dec_str(k.key_id, s2);
    lemma_dec_lit(";hash="@, s2b);
    lemma_dec_str(k.key_hash, s3);
    lemma_dec_lit(";app="@, s3b);
    lemma_dec_str(k.app, s4);
    lemma_dec_lit(";tags="@, s4b);
    lemma_dec_tags(k.tags, s5);
    lemma_dec_lit(";expires="@, s5b);
    lemma_dec_u64(k.expires, s6);
    let base = RpcKeyView {
        active: false,
        quota_second: Option::None,
        quota_minute: Option::None,
        quota_hour: Option::None,
        quota_day: Option::None,
        quota_week: Option::None,
        quota_month: Option::None,
        quota_year: Option::None,
        ..k
    };
    lemma_key_round_trip_rest(k, base);
}

/// A label, a field, and the rest of a record, joined.
fn join3(label: &str, piece: &str, rest: &str) -> (r: String)
    ensures
        r@ == label@ + (piece@ + rest@),
{
    let mut s = String::from_str(label);
    s.append(piece);
    s.append(rest);
    proof {
        assert(s@ =~= label@ + (piece@ + rest@));
    }
    s
}

/// An optional number, rendered on its own.
fn enc_opt_u64_str(o: &Option<u64>) -> (r: String)
    ensures
        r@ == enc_opt_u64(*o),
{
    let mut s = String::new();
    append_opt_u64(&mut s, o);
    proof {
        assert(s@ =~= enc_opt_u64(*o));
    }
    s
}

/// A length-prefixed string, rendered on its own.
fn enc_str_str(v: &str) -> (r: String)
    ensures
        r@ == enc_str(v@),
        len_ok(v@),
{
    let mut s = String::new();
    append_str_field(&mut s, v);
    proof {
        assert(s@ =~= enc_str(v@));
    }
    s
}

/// Writes the record for a key, innermost field first so that each step
/// mirrors one node of the record's shape.
pub fn encode_rpc_key(k: &RpcKey) -> (r: String)
    ensures
        r@ == spec_enc_key(k@),
        len_ok(k@.key_id),
        len_ok(k@.key_hash),
        len_ok(k@.app),
        len_ok(k@.tags),
        forall|i: int| 0 <= i < k@.tags.len() ==> len_ok(#[trigger] k@.tags[i]),
{
    let t0 = String::from_str(";");
    let qy = enc_opt_u64_str(&k.quota_year);
    let t1 = join3(";qy=", qy.as_str(), t0.as_str());
    let qmo = enc_opt_u64_str(&k.quota_month);
    let t2 = join3(";qmo=", qmo.as_str(), t1.as_str());
    let qw = enc_opt_u64_str(&k.quota_week);
    let t3 = join3(";qw=", qw.as_str(), t2.as_str());
    let qd = enc_opt_u64_str(&k.quota_day);
    let t4 = join3(";qd=", qd.as_str(), t3.as_str());
    let qh = enc_opt_u64_str(&k.quota_hour);
    let t5 = join3(";qh=", qh.as_str(), t4.as_str());
    let qm = enc_opt_u64_str(&k.quota_minute);
    let t6 = join3(";qm=", qm.as_str(), t5.as_str());
    let qs = enc_opt_u64_str(&k.quota_second);
    let t7 = join3(";qs=", qs.as_str(), t6.as_str());
    let mut act = String::new();
    append_bool(&mut act, k.active);
    proof {
        assert(act@ =~= enc_bool(k@.active));
    }
    let t8 = join3(";active=", act.as_str(), t7.as_str());
    let exp = u64_hex_fixed(k.expires, 16);
    let t9 = join3(";expires=", exp.as_str(), t8.as_str());
    let mut tg = String::new();
    append_tags(&mut tg, &k.tags);
    proof {
        assert(tg@ =~= enc_tags(k@.tags));
    }
    let t10 = join3(";tags=", tg.as_str(), t9.as_str());
    let ap = enc_str_str(k.app.as_str());
    let t11 = join3(";app=", ap.as_str(), t10.as_str());
    let hs = enc_str_str(k.key_hash.as_str());
    let t12 = join3(";hash=", hs.as_str(), t11.as_str());
    let id = enc_str_str(k.key_id.as_str());
    let t13 = join3("key;id=", id.as_str(), t12.as_str());
    t13
}

/// Reads a key back from a record; `None` on any malformed input.
#[verifier::rlimit(60)]
pub fn decode_rpc_key(s: &str) -> (r: Option<RpcKey>)
    ensures
        r is Some <==> spec_dec_key(s@) is Some,
        r matches Some(k) ==> spec_dec_key(s@) == Option::Some(k@),
{
    let n = s.unicode_len();
    proof {
        assert(s@.skip(0) =~= s@);
    }
    let p1 = match eat_lit(s, 0, "key;id=") {
        None => {
            return None;
        },
        Some(p) => p,
    };
    let (key_id, p2) = match read_str(s, p1) {
        None => {
            return None;
        },
        Some(x) => x,
    };
    let p3 = match eat_lit(s, p2, ";hash=") {
        None => {
            return None;
        },
        Some(p) => p,
    };
    let (key_hash, p4) = match read_str(s, p3) {
        None => {
            return None;
        },
        Some(x) => x,
    };
    let p5 = match eat_lit(s, p4, ";app=") {
        None => {
            return None;
        },
        Some(p) => p,
    };
    let (app, p6) = match read_str(s, p5) {
        None => {
            return None;
        },
        Some(x) => x,
    };
    let p7 = match eat_lit(s, p6, ";tags=") {
        None => {
            return None;
        },
        Some(p) => p,
    };
    let (tags, p8) = match read_tags(s, p7) {
        None => {
            return None;
        },
        Some(x) => x,
    };
    let p9 = match eat_lit(s, p8, ";expires=") {
        None => {
            return None;
        },
        Some(p) => p,
    };
    let (expires, p10) = match read_u64(s, p9) {
        None => {
            return None;
        },
        Some(x) => x,
    };
    let partial = RpcKey {
        key_id,
        key_hash,
        app,
        tags,
        expires,
        active: false,
        quota_second: None,
        quota_minute: None,
        quota_hour: None,
        quota_day: None,
        quota_week: None,
        quota_month: None,
        quota_year: None,
    };
    decode_rpc_key_rest(partial, s, p10, n)
}

/// Reads the tail of a key record, from the activity flag on, into the
/// partly filled key `k`.
#[verifier::rlimit(60)]
fn decode_rpc_key_rest(k: RpcKey, s: &str, pos: usize, n: usize) -> (r: Option<RpcKey>)
    requires
        pos <= s@.len(),
        s@.len() <= usize::MAX,
        n == s@.len(),
    ensures
        r is Some <==> spec_dec_key_rest(k@, s@.skip(pos as int)) is Some,
        r matches Some(out) ==> spec_dec_key_rest(k@, s@.skip(pos as int)) == Option::Some(out@),
{
    let p1 = match eat_lit(s, pos, ";active=") {
        None => {
            return None;
        },
        Some(p) => p,
    };
    let (active, p2) = match read_bool(s, p1) {
        None => {
            return None;
        },
        Some(x) => x,
    };
    let p3 = match eat_lit(s, p2, ";qs=") {
        None => {
            return None;
        },
        Some(p) => p,
    };
    let (qs, p4) = match read_opt_u64(s, p3) {
        None => {
            return None;
        },
        Some(x) => x,
    };
    let p5 = match eat_lit(s, p4, ";qm=") {
        None => {
            return None;
        },
        Some(p) => p,
    };
    let (qm, p6) = match read_opt_u64(s, p5) {
        None => {
            return None;
        },
        Some(x) => x,
    };
    let p7 = match eat_lit(s, p6, ";qh=") {
        None => {
            return None;
        },
        Some(p) => p,
    };
    let (qh, p8) = match read_opt_u64(s, p7) {
        None => {
            return None;
        },
        Some(x) => x,
    };
    let p9 = match eat_lit(s, p8, ";qd=") {
        None => {
            return None;
        },
        Some(p) => p,
    };
    let (qd, p10) = match read_opt_u64(s, p9) {
        None => {
            return None;
        },
        Some(x) => x,
    };
    let p11 = match eat_lit(s, p10, ";qw=") {
        None => {
            return None;
        },
        Some(p) => p,
    };
    let (qw, p12) = match read_opt_u64(s, p11) {
        None => {
            return None;
        },
        Some(x) => x,
    };
    let p13 = match eat_lit(s, p12, ";qmo=") {
        None => {
            return None;
        },
        Some(p) => p,
    };
    let (qmo, p14) = match read_opt_u64(s, p13) {
        None => {
            return None;
        },
        Some(x) => x,
    };
    let p15 = match eat_lit(s, p14, ";qy=") {
        None => {
            return None;
        },
        Some(p) => p,
    };
    let (qy, p16) = match read_opt_u64(s, p15) {
        None => {
            return None;
        },
        Some(x) => x,
    };
    let p17 = match eat_lit(s, p16, ";") {
        None => {
            return None;
        },
        Some(p) => p,
    };
    if p17 != n {
        return None;
    }
    Some(
        RpcKey {
            active,
            quota_second: qs,
            quota_minute: qm,
            quota_hour: qh,
            quota_day: qd,
            quota_week: qw,
            quota_month: qmo,
            quota_year: qy,
            ..k
        },
    )
}

} // verus!
