//! The text form in which the configuration is persisted: one object with
//! the five fields, written and read by this module alone.
//!
//! [`spec_encode`] fixes the document a configuration becomes; [`spec_decode`]
//! fixes which documents are accepted and what they mean. Decoding an encoded
//! configuration is proved to give the configuration back
//! ([`lemma_decode_encode`]); any text the decoder refuses makes the loader
//! fall back to the default configuration.

use vstd::prelude::*;

use crate::config::AppConfig;
use crate::config::ConfigView;
use crate::num::dec_rep;
use crate::num::is_dec_digit;
use crate::num::lemma_scan_u32_rep;
use crate::num::push_dec_u32;
use crate::num::scan_u32;
use crate::num::scan_u32_chars;
use crate::text::chars_to_string;
use crate::text::push_str_chars;
use crate::text::str_to_chars;

verus! {

/// A string field's characters with `"` and `\` each put behind a single
/// `\`.
pub open spec fn esc(s: Seq<char>) -> Seq<char>
    decreases s.len(),
{
    if s.len() == 0 {
        Seq::empty()
    } else {
        esc_char(s[0]) + esc(s.drop_first())
    }
}

/// What one character of a string field becomes in the document.
pub open spec fn esc_char(c: char) -> Seq<char> {
    if c == '"' || c == '\\' {
        seq!['\\', c]
    } else {
        seq![c]
    }
}

/// A string field as it stands in the document: escaped, between quotes.
pub open spec fn quoted(s: Seq<char>) -> Seq<char> {
    seq!['"'] + esc(s) + seq!['"']
}

/// A flag as it stands in the document.
pub open spec fn bool_rep(b: bool) -> Seq<char> {
    if b {
        "true"@
    } else {
        "false"@
    }
}

/// The document written for configuration `c`.
pub open spec fn spec_encode(c: ConfigView) -> Seq<char> {
    "{\n  \"iso_path\": "@ + quoted(c.iso_path) + ",\n  \"decryption_key\": "@ + quoted(
        c.decryption_key,
    ) + ",\n  \"thread_count\": "@ + dec_rep(c.thread_count as nat) + ",\n  \"auto\": "@
        + bool_rep(c.auto) + ",\n  \"ps3dec_path\": "@ + quoted(c.ps3dec_path) + "\n}"@
}

/// Consuming a fixed piece of text from the front.
pub open spec fn expect(s: Seq<char>, lit: Seq<char>) -> Option<Seq<char>> {
    if lit.is_prefix_of(s) {
        Some(s.skip(lit.len() as int))
    } else {
        None
    }
}

/// Reading an escaped string after its opening quote: the characters it
/// stands for and what follows its closing quote.
pub open spec fn scan_string(s: Seq<char>) -> Option<(Seq<char>, Seq<char>)>
    decreases s.len(),
{
    if s.len() == 0 {
        None
    } else if s[0] == '"' {
        Some((Seq::empty(), s.drop_first()))
    } else if s[0] == '\\' {
        if s.len() >= 2 && (s[1] == '"' || s[1] == '\\') {
            match scan_string(s.skip(2)) {
                Some(p) => Some((seq![s[1]] + p.0, p.1)),
                None => None,
            }
        } else {
            None
        }
    } else {
        match scan_string(s.drop_first()) {
            Some(p) => Some((seq![s[0]] + p.0, p.1)),
            None => None,
        }
    }
}

/// Reading a quoted string field from the front.
pub open spec fn scan_quoted(s: Seq<char>) -> Option<(Seq<char>, Seq<char>)> {
    match expect(s, seq!['"']) {
        Some(t) => scan_string(t),
        None => None,
    }
}

/// Reading a flag from the front.
pub open spec fn scan_bool(s: Seq<char>) -> Option<(bool, Seq<char>)> {
    match expect(s, "true"@) {
        Some(t) => Some((true, t)),
        None => match expect(s, "false"@) {
            Some(t) => Some((false, t)),
            None => None,
        },
    }
}

/// The configuration a document stands for, if the decoder accepts it.
pub open spec fn spec_decode(s: Seq<char>) -> Option<ConfigView> {
    match expect(s, "{\n  \"iso_path\": "@) {
        None => None,
        Some(s1) => match scan_quoted(s1) {
            None => None,
            Some((iso, s2)) => match expect(s2, ",\n  \"decryption_key\": "@) {
                None => None,
                Some(s3) => match scan_quoted(s3) {
                    None => None,
                    Some((key, s4)) => match expect(s4, ",\n  \"thread_count\": "@) {
                        None => None,
                        Some(s5) => match scan_u32(s5) {
                            None => None,
                            Some((tc, s6)) => match expect(s6, ",\n  \"auto\": "@) {
                                None => None,
                                Some(s7) => match scan_bool(s7) {
                                    None => None,
                                    Some((auto, s8)) => match expect(
                                        s8,
                                        ",\n  \"ps3dec_path\": "@,
                                    ) {
                                        None => None,
                                        Some(s9) => match scan_quoted(s9) {
                                            None => None,
                                            Some((ps3, s10)) => match expect(s10, "\n}"@) {
                                                None => None,
                                                Some(s11) => if s11.len() == 0 {
                                                    Some(
                                                        ConfigView {
                                                            iso_path: iso,
                                                            decryption_key: key,
                                                            thread_count: tc,
                                                            auto,
                                                            ps3dec_path: ps3,
                                                        },
                                                    )
                                                } else {
                                                    None
                                                },
                                            },
                                        },
                                    },
                                },
                            },
                        },
                    },
                },
            },
        },
    }
}

/// Consuming a piece of text that is there consumes exactly it.
pub proof fn lemma_expect(lit: Seq<char>, rest: Seq<char>)
    ensures
        expect(lit + rest, lit) == Some(rest),
{
    assert(lit =~= (lit + rest).subrange(0, lit.len() as int));
    assert((lit + rest).skip(lit.len() as int) =~= rest);
}

/// Escaping distributes over concatenation.
pub proof fn lemma_esc_concat(a: Seq<char>, b: Seq<char>)
    ensures
        esc(a + b) == esc(a) + esc(b),
    decreases a.len(),
{
    if a.len() == 0 {
        assert(a + b =~= b);
        assert(esc(a) + esc(b) =~= esc(b));
    } else {
        assert((a + b).drop_first() =~= a.drop_first() + b);
        lemma_esc_concat(a.drop_first(), b);
        assert(esc(a + b) =~= esc(a) + esc(b));
    }
}

/// Reading back an escaped string stops at its closing quote and undoes the
/// escaping.
pub proof fn lemma_scan_string_esc(v: Seq<char>, rest: Seq<char>)
    ensures
        scan_string(esc(v) + seq!['"'] + rest) == Some((v, rest)),
    decreases v.len(),
{
    let s = esc(v) + seq!['"'] + rest;
    if v.len() == 0 {
        assert(esc(v) =~= Seq::<char>::empty());
        assert(s[0] == '"');
        assert(s.drop_first() =~= rest);
    } else {
        let c = v[0];
        lemma_scan_string_esc(v.drop_first(), rest);
        let tail = esc(v.drop_first()) + seq!['"'] + rest;
        if c == '"' || c == '\\' {
            assert(esc(v) =~= seq!['\\', c] + esc(v.drop_first()));
            assert(s[0] == '\\' && s[1] == c);
            assert(s.skip(2) =~= tail);
            assert(seq![s[1]] + v.drop_first() =~= v);
        } else {
            assert(esc(v) =~= seq![c] + esc(v.drop_first()));
            assert(s[0] == c);
            assert(s.drop_first() =~= tail);
            assert(seq![s[0]] + v.drop_first() =~= v);
        }
    }
}

/// Reading back a quoted field gives the field and what follows it.
pub proof fn lemma_scan_quoted(v: Seq<char>, rest: Seq<char>)
    ensures
        scan_quoted(quoted(v) + rest) == Some((v, rest)),
{
    assert(quoted(v) + rest =~= seq!['"'] + (esc(v) + seq!['"'] + rest));
    lemma_expect(seq!['"'], esc(v) + seq!['"'] + rest);
    lemma_scan_string_esc(v, rest);
}

/// Reading back a flag gives the flag and what follows it.
pub proof fn lemma_scan_bool(b: bool, rest: Seq<char>)
    ensures
        scan_bool(bool_rep(b) + rest) == Some((b, rest)),
{
    reveal_strlit("true");
    reveal_strlit("false");
    if b {
        lemma_expect("true"@, rest);
    } else {
        assert(expect("false"@ + rest, "true"@) is None) by {
            if "true"@.is_prefix_of("false"@ + rest) {
                assert("true"@[0] == ("false"@ + rest).subrange(0, 4)[0]);
            }
        }
        lemma_expect("false"@, rest);
    }
}

/// Decoding what [`spec_encode`] wrote gives the configuration back.
pub proof fn lemma_decode_encode(c: ConfigView)
    ensures
        spec_decode(spec_encode(c)) == Some(c),
{
    let l1 = "{\n  \"iso_path\": "@;
    let l2 = ",\n  \"decryption_key\": "@;
    let l3 = ",\n  \"thread_count\": "@;
    let l4 = ",\n  \"auto\": "@;
    let l5 = ",\n  \"ps3dec_path\": "@;
    let l6 = "\n}"@;
    let s10 = l6;
    let s9 = quoted(c.ps3dec_path) + s10;
    let s8 = l5 + s9;
    let s7 = bool_rep(c.auto) + s8;
    let s6 = l4 + s7;
    let s5 = dec_rep(c.thread_count as nat) + s6;
    let s4 = l3 + s5;
    let s3 = quoted(c.decryption_key) + s4;
    let s2 = l2 + s3;
    let s1 = quoted(c.iso_path) + s2;
    assert(spec_encode(c) =~= l1 + s1);
    lemma_expect(l1, s1);
    lemma_scan_quoted(c.iso_path, s2);
    lemma_expect(l2, s3);
    lemma_scan_quoted(c.decryption_key, s4);
    lemma_expect(l3, s5);
    assert(!is_dec_digit(s6[0])) by {
        reveal_strlit(",\n  \"auto\": ");
        assert(s6[0] == ',');
    }
    lemma_scan_u32_rep(c.thread_count, s6);
    lemma_expect(l4, s7);
    lemma_scan_bool(c.auto, s8);
    lemma_expect(l5, s9);
    lemma_scan_quoted(c.ps3dec_path, s10);
    lemma_expect(l6, Seq::<char>::empty());
    assert(l6 + Seq::<char>::empty() =~= l6);
}

/// Appends the escaped form of `s` to `out`.
#[verifier::loop_isolation(false)]
fn push_esc(out: &mut Vec<char>, s: &Vec<char>)
    ensures
        final(out)@ == old(out)@ + esc(s@),
{
    proof {
        assert(s@.take(0) =~= Seq::<char>::empty());
        assert(out@ =~= out@ + esc(Seq::<char>::empty()));
    }
    let mut i: usize = 0;
    while i < s.len()
        invariant
            i <= s@.len(),
            out@ == old(out)@ + esc(s@.take(i as int)),
        decreases s@.len() - i,
    {
        let c = s[i];
        if c == '"' || c == '\\' {
            out.push('\\');
            out.push(c);
        } else {
            out.push(c);
        }
        proof {
            assert(s@.take(i + 1) =~= s@.take(i as int) + seq![s@[i as int]]);
            lemma_esc_concat(s@.take(i as int), seq![s@[i as int]]);
            assert(seq![s@[i as int]].drop_first() =~= Seq::<char>::empty());
            assert(esc(Seq::<char>::empty()) =~= Seq::<char>::empty());
            assert(esc(seq![s@[i as int]]) =~= esc_char(s@[i as int]) + Seq::<char>::empty());
            assert(esc_char(s@[i as int]) + Seq::<char>::empty() =~= esc_char(s@[i as int]));
            assert(out@ =~= old(out)@ + esc(s@.take(i + 1)));
        }
        i = i + 1;
    }
    proof {
        assert(s@.take(s@.len() as int) =~= s@);
    }
}

/// Appends a string field, quoted and escaped, to `out`.
fn push_quoted(out: &mut Vec<char>, s: &String)
    ensures
        final(out)@ == old(out)@ + quoted(s@),
{
    out.push('"');
    let sv = str_to_chars(s.as_str());
    push_esc(out, &sv);
    out.push('"');
    proof {
        assert(out@ =~= old(out)@ + quoted(s@));
    }
}

/// Writes the document for configuration `c`.
pub fn encode_config(c: &AppConfig) -> (r: String)
    ensures
        r@ == spec_encode(c@),
{
    let mut out: Vec<char> = Vec::new();
    push_str_chars(&mut out, "{\n  \"iso_path\": ");
    push_quoted(&mut out, &c.iso_path);
    push_str_chars(&mut out, ",\n  \"decryption_key\": ");
    push_quoted(&mut out, &c.decryption_key);
    push_str_chars(&mut out, ",\n  \"thread_count\": ");
    push_dec_u32(&mut out, c.thread_count);
    push_str_chars(&mut out, ",\n  \"auto\": ");
    if c.auto {
        push_str_chars(&mut out, "true");
    } else {
        push_str_chars(&mut out, "false");
    }
    push_str_chars(&mut out, ",\n  \"ps3dec_path\": ");
    push_quoted(&mut out, &c.ps3dec_path);
    push_str_chars(&mut out, "\n}");
    proof {
        assert(out@ =~= spec_encode(c@));
    }
    chars_to_string(&out)
}

/// Consumes `lit` at position `i`, as [`expect`] describes on the remaining
/// characters.
#[verifier::loop_isolation(false)]
fn expect_lit(s: &Vec<char>, i: usize, lit: &str) -> (r: Option<usize>)
    requires
        i <= s@.len(),
    ensures
        match r {
            Some(j) => i <= j <= s@.len() && expect(s@.skip(i as int), lit@) == Some(
                s@.skip(j as int),
            ),
            None => expect(s@.skip(i as int), lit@) is None,
        },
{
    let lv = str_to_chars(lit);
    if lv.len() > s.len() - i {
        proof {
            if lit@.is_prefix_of(s@.skip(i as int)) {
                assert(false);
            }
        }
        return None;
    }
    let mut k: usize = 0;
    while k < lv.len()
        invariant
            k <= lv@.len(),
            forall|m: int| 0 <= m < k ==> lv@[m] == s@[i + m],
        decreases lv@.len() - k,
    {
        if s[i + k] != lv[k] {
            proof {
                let t = s@.skip(i as int);
                if lit@.is_prefix_of(t) {
                    assert(lit@[k as int] == t.subrange(0, lit@.len() as int)[k as int]);
                    assert(t[k as int] == s@[i + k]);
                }
            }
            return None;
        }
        k = k + 1;
    }
    proof {
        let t = s@.skip(i as int);
        assert(lit@ =~= t.subrange(0, lit@.len() as int));
        assert(t.skip(lit@.len() as int) =~= s@.skip(i + lv@.len()));
    }
    Some(i + lv.len())
}

/// Reads an escaped string at position `i`, after its opening quote, as
/// [`scan_string`] describes on the remaining characters.
fn scan_string_chars(s: &Vec<char>, i: usize) -> (r: Option<(Vec<char>, usize)>)
    requires
        i <= s@.len(),
    ensures
        match r {
            Some(p) => i <= p.1 <= s@.len() && scan_string(s@.skip(i as int)) == Some(
                (p.0@, s@.skip(p.1 as int)),
            ),
            None => scan_string(s@.skip(i as int)) is None,
        },
    decreases s@.len() - i,
{
    let ghost t = s@.skip(i as int);
    if i == s.len() {
        return None;
    }
    let c = s[i];
    assert(c == t[0]);
    if c == '"' {
        proof {
            assert(t.drop_first() =~= s@.skip(i + 1));
        }
        let v: Vec<char> = Vec::new();
        Some((v, i + 1))
    } else if c == '\\' {
        if i + 1 < s.len() {
            let c2 = s[i + 1];
            assert(c2 == t[1]);
            if c2 == '"' || c2 == '\\' {
                proof {
                    assert(t.skip(2) =~= s@.skip(i + 2));
                }
                match scan_string_chars(s, i + 2) {
                    Some((mut v, j)) => {
                        v.insert(0, c2);
                        proof {
                            assert(v@ =~= seq![t[1]] + v@.drop_first());
                        }
                        Some((v, j))
                    },
                    None => None,
                }
            } else {
                None
            }
        } else {
            None
        }
    } else {
        proof {
            assert(t.drop_first() =~= s@.skip(i + 1));
        }
        match scan_string_chars(s, i + 1) {
            Some((mut v, j)) => {
                v.insert(0, c);
                proof {
                    assert(v@ =~= seq![t[0]] + v@.drop_first());
                }
                Some((v, j))
            },
            None => None,
        }
    }
}

/// Reads a quoted string field at position `i`, as [`scan_quoted`] describes
/// on the remaining characters.
fn scan_quoted_chars(s: &Vec<char>, i: usize) -> (r: Option<(Vec<char>, usize)>)
    requires
        i <= s@.len(),
    ensures
        match r {
            Some(p) => i <= p.1 <= s@.len() && scan_quoted(s@.skip(i as int)) == Some(
                (p.0@, s@.skip(p.1 as int)),
            ),
            None => scan_quoted(s@.skip(i as int)) is None,
        },
{
    proof {
        reveal_strlit("\"");
        assert("\""@ =~= seq!['"']);
    }
    match expect_lit(s, i, "\"") {
        Some(j) => scan_string_chars(s, j),
        None => None,
    }
}

/// Reads a flag at position `i`, as [`scan_bool`] describes on the remaining
/// characters.
fn scan_bool_chars(s: &Vec<char>, i: usize) -> (r: Option<(bool, usize)>)
    requires
        i <= s@.len(),
    ensures
        match r {
            Some(p) => i <= p.1 <= s@.len() && scan_bool(s@.skip(i as int)) == Some(
                (p.0, s@.skip(p.1 as int)),
            ),
            None => scan_bool(s@.skip(i as int)) is None,
        },
{
    match expect_lit(s, i, "true") {
        Some(j) => Some((true, j)),
        None => match expect_lit(s, i, "false") {
            Some(j) => Some((false, j)),
            None => None,
        },
    }
}

/// Reads a whole document, as [`spec_decode`] describes.
#[verifier::rlimit(60)]
pub fn decode_config(s: &str) -> (r: Option<AppConfig>)
    ensures
        match r {
            Some(c) => spec_decode(s@) == Some(c@),
            None => spec_decode(s@) is None,
        },
{
    let chars = str_to_chars(s);
    proof {
        assert(chars@.skip(0) =~= s@);
    }
    let i1 = match expect_lit(&chars, 0, "{\n  \"iso_path\": ") {
        Some(j) => j,
        None => {
            return None;
        },
    };
    let (iso, i2) = match scan_quoted_chars(&chars, i1) {
        Some(p) => p,
        None => {
            return None;
        },
    };
    let i3 = match expect_lit(&chars, i2, ",\n  \"decryption_key\": ") {
        Some(j) => j,
        None => {
            return None;
        },
    };
    let (key, i4) = match scan_quoted_chars(&chars, i3) {
        Some(p) => p,
        None => {
            return None;
        },
    };
    let i5 = match expect_lit(&chars, i4, ",\n  \"thread_count\": ") {
        Some(j) => j,
        None => {
            return None;
        },
    };
    let (tc, i6) = match scan_u32_chars(&chars, i5) {
        Some(p) => p,
        None => {
            return None;
        },
    };
    let i7 = match expect_lit(&chars, i6, ",\n  \"auto\": ") {
        Some(j) => j,
        None => {
            return None;
        },
    };
    let (auto, i8) = match scan_bool_chars(&chars, i7) {
        Some(p) => p,
        None => {
            return None;
        },
    };
    let i9 = match expect_lit(&chars, i8, ",\n  \"ps3dec_path\": ") {
        Some(j) => j,
        None => {
            return None;
        },
    };
    let (ps3, i10) = match scan_quoted_chars(&chars, i9) {
        Some(p) => p,
        None => {
            return None;
        },
    };
    let i11 = match expect_lit(&chars, i10, "\n}") {
        Some(j) => j,
        None => {
            return None;
        },
    };
    if i11 != chars.len() {
        return None;
    }
    Some(
        AppConfig {
            iso_path: chars_to_string(&iso),
            decryption_key: chars_to_string(&key),
            thread_count: tc,
            auto,
            ps3dec_path: chars_to_string(&ps3),
        },
    )
}

/// The configuration to start with, given the persisted text if any could
/// be read: what the text stands for, or the default wherever there is no
/// text or the decoder refuses it.
pub fn load_config(text: Option<&str>) -> (r: AppConfig)
    ensures
        match text {
            Some(t) => match spec_decode(t@) {
                Some(v) => r@ == v,
                None => r@ == crate::config::default_config_view(),
            },
            None => r@ == crate::config::default_config_view(),
        },
{
    match text {
        Some(t) => match decode_config(t) {
            Some(c) => c,
            None => AppConfig::default(),
        },
        None => AppConfig::default(),
    }
}

} // verus!
