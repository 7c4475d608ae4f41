//! The sidecar text format for acquisition descriptors.
//!
//! A descriptor is written as a tagged record, for example
//! `Binary(url:"https://x",unzip:true)` or
//! `Local(binary:"VoxelEngine.AppImage",origin:Binary(url:"u",unzip:false))`.
//! String fields stand between double quotes with `\` protecting a
//! quote or a backslash.  [`parse_descriptor`] reads back everything
//! [`serialize_descriptor`] writes: its contract promises the original
//! descriptor for any input that is the serialization of a well-formed
//! descriptor, which is the round-trip law of the format.

use crate::descriptor::{DescView, VersionData};
use vstd::prelude::*;

verus! {

/// One character of a string field as escaped in the sidecar text: a
/// backslash protects a quote or a backslash, every other character
/// stands for itself.
pub open spec fn spec_esc_char(c: char) -> Seq<char> {
    if c == '"' || c == '\\' {
        seq!['\\', c]
    } else {
        seq![c]
    }
}

/// A string field as written between its surrounding quotes.
pub open spec fn spec_esc(s: Seq<char>) -> Seq<char>
    decreases s.len(),
{
    if s.len() == 0 {
        Seq::empty()
    } else {
        spec_esc_char(s[0]) + spec_esc(s.skip(1))
    }
}

/// The sidecar text of a descriptor.
pub open spec fn spec_ser(d: DescView) -> Seq<char>
    decreases d,
{
    match d {
        DescView::GitLatest => "GitLatest"@,
        DescView::Binary { url, unzip } => "Binary(url:\""@ + spec_esc(url) + "\",unzip:"@ + (
        if unzip {
            "true)"@
        } else {
            "false)"@
        }),
        DescView::Source { zipball_url } => "Source(zipball_url:\""@ + spec_esc(zipball_url)
            + "\")"@,
        DescView::Local { binary, origin } => "Local(binary:\""@ + spec_esc(binary) + "\",origin:"@
            + spec_ser(*origin) + ")"@,
        DescView::NotFound => "NotFound"@,
    }
}

pub proof fn lemma_esc_single(c: char)
    ensures
        spec_esc(seq![c]) == spec_esc_char(c),
{
    assert(seq![c].skip(1) =~= Seq::<char>::empty());
    assert(spec_esc(Seq::<char>::empty()) =~= Seq::<char>::empty());
    assert(spec_esc(seq![c]) =~= spec_esc_char(c));
}

pub proof fn lemma_esc_append(a: Seq<char>, b: Seq<char>)
    ensures
        spec_esc(a + b) == spec_esc(a) + spec_esc(b),
    decreases a.len(),
{
    if a.len() == 0 {
        assert(a + b =~= b);
        assert(spec_esc(a) =~= Seq::<char>::empty());
        assert(spec_esc(a) + spec_esc(b) =~= spec_esc(b));
    } else {
        lemma_esc_append(a.skip(1), b);
        assert((a + b).skip(1) =~= a.skip(1) + b);
        assert((a + b).len() > 0 && (a + b)[0] == a[0]);
        assert(spec_esc(a + b) =~= spec_esc(a) + spec_esc(b));
    }
}

/// Writes one string field, escaped, to the end of `out`.
fn write_escaped(out: &mut String, s: &str)
    ensures
        final(out)@ == old(out)@ + spec_esc(s@),
{
    let n = s.unicode_len();
    let ghost start = out@;
    let mut i: usize = 0;
    while i < n
        invariant
            n == s@.len(),
            i <= n,
            out@ == start + spec_esc(s@.take(i as int)),
        decreases n - i,
    {
        let c = s.get_char(i);
        if c == '"' || c == '\\' {
            out.append("\\");
        }
        let piece = s.substring_char(i, i + 1);
        out.append(piece);
        proof {
            reveal_strlit("\\");
            let cc = s@[i as int];
            assert(piece@ =~= seq![cc]);
            assert(s@.take(i as int + 1) =~= s@.take(i as int) + seq![cc]);
            lemma_esc_append(s@.take(i as int), seq![cc]);
            lemma_esc_single(cc);
            assert("\\"@ =~= seq!['\\']);
            assert(out@ =~= start + spec_esc(s@.take(i as int + 1)));
        }
        i += 1;
    }
    proof {
        assert(s@.take(n as int) =~= s@);
    }
}

/// Writes the sidecar text of `d` to the end of `out`.
fn write_descriptor(out: &mut String, d: &VersionData)
    ensures
        final(out)@ == old(out)@ + spec_ser(d@),
    decreases d,
{
    let ghost start = out@;
    match d {
        VersionData::GitLatest => {
            out.append("GitLatest");
        },
        VersionData::Binary { url, unzip } => {
            out.append("Binary(url:\"");
            write_escaped(out, url.as_str());
            out.append("\",unzip:");
            if *unzip {
                out.append("true)");
            } else {
                out.append("false)");
            }
            proof {
                assert(out@ =~= start + spec_ser(d@));
            }
        },
        VersionData::Source { zipball_url } => {
            out.append("Source(zipball_url:\"");
            write_escaped(out, zipball_url.as_str());
            out.append("\")");
            proof {
                assert(out@ =~= start + spec_ser(d@));
            }
        },
        VersionData::Local { binary, origin } => {
            out.append("Local(binary:\"");
            write_escaped(out, binary.as_str());
            out.append("\",origin:");
            write_descriptor(out, &**origin);
            out.append(")");
            proof {
                assert(out@ =~= start + spec_ser(d@));
            }
        },
        VersionData::NotFound => {
            out.append("NotFound");
        },
    }
}

/// The sidecar text of `d`, as written to a version's sidecar file.
pub fn serialize_descriptor(d: &VersionData) -> (r: String)
    ensures
        r@ == spec_ser(d@),
{
    let mut out = String::new();
    write_descriptor(&mut out, d);
    proof {
        assert(Seq::<char>::empty() + spec_ser(d@) =~= spec_ser(d@));
    }
    out
}

/// The text of `d` stands in `s` at position `pos`.
pub open spec fn ser_at(s: Seq<char>, pos: int, d: DescView) -> bool {
    &&& 0 <= pos
    &&& pos + spec_ser(d).len() <= s.len()
    &&& s.subrange(pos, pos + spec_ser(d).len() as int) == spec_ser(d)
}

/// An escaped string field with content `content`, closed by a quote,
/// stands in `s` at position `pos`.
pub open spec fn esc_at(s: Seq<char>, pos: int, content: Seq<char>) -> bool {
    &&& 0 <= pos
    &&& pos + spec_esc(content).len() + 1 <= s.len()
    &&& s.subrange(pos, pos + spec_esc(content).len() as int) == spec_esc(content)
    &&& s[pos + spec_esc(content).len() as int] == '"'
}

pub proof fn lemma_subrange_split(s: Seq<char>, pos: int, x: Seq<char>, y: Seq<char>)
    requires
        0 <= pos,
        pos + x.len() + y.len() <= s.len(),
        s.subrange(pos, pos + x.len() + y.len()) == x + y,
    ensures
        s.subrange(pos, pos + x.len() as int) == x,
        s.subrange(pos + x.len() as int, pos + x.len() + y.len()) == y,
{
    assert forall|i: int| 0 <= i < x.len() implies s.subrange(pos, pos + x.len() as int)[i]
        == x[i] by {
        assert(s.subrange(pos, pos + x.len() + y.len())[i] == (x + y)[i]);
    }
    assert(s.subrange(pos, pos + x.len() as int) =~= x);
    assert forall|i: int| 0 <= i < y.len() implies s.subrange(
        pos + x.len() as int,
        pos + x.len() + y.len(),
    )[i] == y[i] by {
        assert(s.subrange(pos + x.len() as int, pos + x.len() + y.len())[i] == s[pos + x.len()
            + i]);
        assert(s.subrange(pos, pos + x.len() + y.len())[x.len() + i] == s[pos + x.len() + i]);
        assert((x + y)[x.len() + i] == y[i]);
    }
    assert(s.subrange(pos + x.len() as int, pos + x.len() + y.len()) =~= y);
}

/// Lengths, first characters, and quote decompositions of the fixed
/// pieces of the format.
proof fn lemma_tags()
    ensures
        "GitLatest"@.len() == 9,
        "NotFound"@.len() == 8,
        "Binary(url:\""@.len() == 12,
        "\",unzip:"@.len() == 8,
        ",unzip:"@.len() == 7,
        "true)"@.len() == 5,
        "false)"@.len() == 6,
        "Source(zipball_url:\""@.len() == 20,
        "\")"@.len() == 2,
        "Local(binary:\""@.len() == 14,
        "\",origin:"@.len() == 9,
        ",origin:"@.len() == 8,
        ")"@.len() == 1,
        "GitLatest"@[0] == 'G',
        "NotFound"@[0] == 'N',
        "Binary(url:\""@[0] == 'B',
        "Source(zipball_url:\""@[0] == 'S',
        "Local(binary:\""@[0] == 'L',
        "true)"@[0] == 't',
        "false)"@[0] == 'f',
        ")"@[0] == ')',
        "\",unzip:"@ == seq!['"'] + ",unzip:"@,
        "\")"@ == seq!['"'] + ")"@,
        "\",origin:"@ == seq!['"'] + ",origin:"@,
{
    reveal_strlit("GitLatest");
    reveal_strlit("NotFound");
    reveal_strlit("Binary(url:\"");
    reveal_strlit("\",unzip:");
    reveal_strlit(",unzip:");
    reveal_strlit("true)");
    reveal_strlit("false)");
    reveal_strlit("Source(zipball_url:\"");
    reveal_strlit("\")");
    reveal_strlit("Local(binary:\"");
    reveal_strlit("\",origin:");
    reveal_strlit(",origin:");
    reveal_strlit(")");
    assert("\",unzip:"@ =~= seq!['"'] + ",unzip:"@);
    assert("\")"@ =~= seq!['"'] + ")"@);
    assert("\",origin:"@ =~= seq!['"'] + ",origin:"@);
}

/// The first character of a descriptor's text names its variant.
proof fn lemma_ser_first(d: DescView)
    ensures
        spec_ser(d).len() > 0,
        d is GitLatest ==> spec_ser(d) == "GitLatest"@,
        d is NotFound ==> spec_ser(d) == "NotFound"@,
        d is GitLatest ==> spec_ser(d)[0] == 'G',
        d is Binary ==> spec_ser(d)[0] == 'B',
        d is Source ==> spec_ser(d)[0] == 'S',
        d is Local ==> spec_ser(d)[0] == 'L',
        d is NotFound ==> spec_ser(d)[0] == 'N',
{
    lemma_tags();
    match d {
        DescView::GitLatest => {},
        DescView::Binary { url, unzip } => {
            assert(spec_ser(d)[0] == "Binary(url:\""@[0]);
        },
        DescView::Source { zipball_url } => {
            assert(spec_ser(d)[0] == "Source(zipball_url:\""@[0]);
        },
        DescView::Local { binary, origin } => {
            assert(spec_ser(d)[0] == "Local(binary:\""@[0]);
        },
        DescView::NotFound => {},
    }
}

proof fn lemma_ser_at_head(s: Seq<char>, pos: int, d: DescView)
    requires
        ser_at(s, pos, d),
    ensures
        pos < s.len(),
        s[pos] == spec_ser(d)[0],
        d is GitLatest ==> s[pos] == 'G',
        d is Binary ==> s[pos] == 'B',
        d is Source ==> s[pos] == 'S',
        d is Local ==> s[pos] == 'L',
        d is NotFound ==> s[pos] == 'N',
{
    lemma_ser_first(d);
    assert(s.subrange(pos, pos + spec_ser(d).len() as int)[0] == s[pos]);
}

/// An escaped field never starts with an unescaped quote.
proof fn lemma_esc_head(content: Seq<char>)
    requires
        content.len() > 0,
    ensures
        spec_esc(content).len() > 0,
        spec_esc(content)[0] != '"',
        (content[0] == '"' || content[0] == '\\') ==> spec_esc(content)[0] == '\\',
        !(content[0] == '"' || content[0] == '\\') ==> spec_esc(content)[0] == content[0],
{
    assert(spec_esc(content) == spec_esc_char(content[0]) + spec_esc(content.skip(1)));
    assert(spec_esc(content)[0] == spec_esc_char(content[0])[0]);
}

/// Peels the first content character off an escaped field in place.
proof fn lemma_esc_at_step(s: Seq<char>, pos: int, content: Seq<char>)
    requires
        esc_at(s, pos, content),
        content.len() > 0,
    ensures
        (content[0] == '"' || content[0] == '\\') ==> {
            &&& s[pos] == '\\'
            &&& pos + 1 < s.len()
            &&& s[pos + 1] == content[0]
            &&& esc_at(s, pos + 2, content.skip(1))
            &&& spec_esc(content).len() == 2 + spec_esc(content.skip(1)).len()
        },
        !(content[0] == '"' || content[0] == '\\') ==> {
            &&& s[pos] == content[0]
            &&& esc_at(s, pos + 1, content.skip(1))
            &&& spec_esc(content).len() == 1 + spec_esc(content.skip(1)).len()
        },
{
    let c = content[0];
    let rest = content.skip(1);
    assert(spec_esc(content) == spec_esc_char(c) + spec_esc(rest));
    lemma_subrange_split(s, pos, spec_esc_char(c), spec_esc(rest));
    let k = spec_esc_char(c).len();
    assert(s.subrange(pos, pos + k as int) == spec_esc_char(c));
    assert(s.subrange(pos, pos + k as int)[0] == s[pos + 0]);
    assert(s[pos + spec_esc(content).len() as int] == '"');
    let e = spec_esc(rest).len();
    if c == '"' || c == '\\' {
        assert(spec_esc_char(c) =~= seq!['\\', c]);
        assert(k == 2);
        assert(s.subrange(pos, pos + k as int)[1] == s[pos + 1]);
        assert(s[pos] == '\\');
        assert(s[pos + 1] == c);
        assert(s.subrange(pos + 2, pos + 2 + e) == spec_esc(rest));
        assert(s[pos + 2 + e] == '"');
        assert(esc_at(s, pos + 2, rest));
    } else {
        assert(spec_esc_char(c) =~= seq![c]);
        assert(k == 1);
        assert(s[pos] == c);
        assert(s.subrange(pos + 1, pos + 1 + e) == spec_esc(rest));
        assert(s[pos + 1 + e] == '"');
        assert(esc_at(s, pos + 1, rest));
    }
}

/// Tests whether the text of `lit` stands in `s` at position `pos`.
fn match_lit(s: &str, n: usize, pos: usize, lit: &str) -> (r: bool)
    requires
        n == s@.len(),
        pos <= n,
    ensures
        r == (pos + lit@.len() <= s@.len() && s@.subrange(
            pos as int,
            pos as int + lit@.len() as int,
        ) == lit@),
{
    let m = lit.unicode_len();
    if m > n - pos {
        return false;
    }
    let mut i: usize = 0;
    while i < m
        invariant
            n == s@.len(),
            m == lit@.len(),
            pos + m <= n,
            i <= m,
            forall|j: int| 0 <= j < i ==> s@[pos + j] == lit@[j],
        decreases m - i,
    {
        if s.get_char(pos + i) != lit.get_char(i) {
            proof {
                assert(s@.subrange(pos as int, pos as int + m as int)[i as int] == s@[pos + i]);
            }
            return false;
        }
        i += 1;
    }
    proof {
        assert(s@.subrange(pos as int, pos as int + m as int) =~= lit@);
    }
    true
}

/// Reads one escaped string field up to and including its closing
/// quote.  On any text an escaped field was written into, it returns
/// the original content and stops right after the quote.
fn scan_string(s: &str, n: usize, pos: usize) -> (r: Option<(String, usize)>)
    requires
        n == s@.len(),
        pos <= n,
    ensures
        r matches Some((t, p)) ==> pos < p <= n,
        forall|content: Seq<char>|
            esc_at(s@, pos as int, content) ==> (r matches Some((t, p)) && t@ == content && p
                == pos + spec_esc(content).len() + 1),
    decreases n - pos,
{
    if pos >= n {
        return None;
    }
    let c = s.get_char(pos);
    if c == '"' {
        proof {
            assert forall|content: Seq<char>|
                esc_at(s@, pos as int, content) implies content == Seq::<char>::empty() by {
                if content.len() > 0 {
                    lemma_esc_head(content);
                    assert(s@.subrange(
                        pos as int,
                        pos as int + spec_esc(content).len() as int,
                    )[0] == s@[pos as int]);
                }
                assert(content =~= Seq::<char>::empty());
            }
            assert(spec_esc(Seq::<char>::empty()) =~= Seq::<char>::empty());
        }
        return Some((String::new(), pos + 1));
    }
    if c == '\\' {
        if pos + 1 >= n {
            proof {
                assert forall|content: Seq<char>|
                    esc_at(s@, pos as int, content) implies false by {
                    if content.len() == 0 {
                        assert(spec_esc(content) =~= Seq::<char>::empty());
                    } else {
                        lemma_esc_head(content);
                        assert(s@.subrange(
                            pos as int,
                            pos as int + spec_esc(content).len() as int,
                        )[0] == s@[pos as int]);
                        lemma_esc_at_step(s@, pos as int, content);
                    }
                }
            }
            return None;
        }
        let head = s.substring_char(pos + 1, pos + 2);
        let rec = scan_string(s, n, pos + 2);
        proof {
            assert forall|content: Seq<char>|
                esc_at(s@, pos as int, content) implies content.len() > 0 && (content[0] == '"'
                || content[0] == '\\') && content[0] == s@[pos as int + 1] && esc_at(
                s@,
                pos as int + 2,
                content.skip(1),
            ) && spec_esc(content).len() == 2 + spec_esc(content.skip(1)).len() by {
                if content.len() == 0 {
                    assert(spec_esc(content) =~= Seq::<char>::empty());
                } else {
                    lemma_esc_head(content);
                    assert(s@.subrange(
                        pos as int,
                        pos as int + spec_esc(content).len() as int,
                    )[0] == s@[pos as int]);
                    lemma_esc_at_step(s@, pos as int, content);
                }
            }
        }
        match rec {
            Some((t, p)) => {
                let mut r = head.to_owned();
                r.append(t.as_str());
                proof {
                    assert forall|content: Seq<char>|
                        esc_at(s@, pos as int, content) implies r@ == content && p == pos
                        + spec_esc(content).len() + 1 by {
                        assert(esc_at(s@, pos as int + 2, content.skip(1)));
                        assert(r@ =~= seq![content[0]] + content.skip(1));
                        assert(seq![content[0]] + content.skip(1) =~= content);
                    }
                }
                Some((r, p))
            },
            None => {
                proof {
                    assert forall|content: Seq<char>|
                        esc_at(s@, pos as int, content) implies false by {
                        assert(esc_at(s@, pos as int + 2, content.skip(1)));
                    }
                }
                None
            },
        }
    } else {
        let head = s.substring_char(pos, pos + 1);
        let rec = scan_string(s, n, pos + 1);
        proof {
            assert forall|content: Seq<char>|
                esc_at(s@, pos as int, content) implies content.len() > 0 && !(content[0] == '"'
                || content[0] == '\\') && content[0] == s@[pos as int] && esc_at(
                s@,
                pos as int + 1,
                content.skip(1),
            ) && spec_esc(content).len() == 1 + spec_esc(content.skip(1)).len() by {
                if content.len() == 0 {
                    assert(spec_esc(content) =~= Seq::<char>::empty());
                } else {
                    lemma_esc_head(content);
                    assert(s@.subrange(
                        pos as int,
                        pos as int + spec_esc(content).len() as int,
                    )[0] == s@[pos as int]);
                    lemma_esc_at_step(s@, pos as int, content);
                }
            }
        }
        match rec {
            Some((t, p)) => {
                let mut r = head.to_owned();
                r.append(t.as_str());
                proof {
                    assert forall|content: Seq<char>|
                        esc_at(s@, pos as int, content) implies r@ == content && p == pos
                        + spec_esc(content).len() + 1 by {
                        assert(esc_at(s@, pos as int + 1, content.skip(1)));
                        assert(r@ =~= seq![content[0]] + content.skip(1));
                        assert(seq![content[0]] + content.skip(1) =~= content);
                    }
                }
                Some((r, p))
            },
            None => {
                proof {
                    assert forall|content: Seq<char>|
                        esc_at(s@, pos as int, content) implies false by {
                        assert(esc_at(s@, pos as int + 1, content.skip(1)));
                    }
                }
                None
            },
        }
    }
}

/// Splits the text of a `Binary` descriptor into its fixed pieces.
proof fn lemma_ser_at_binary(s: Seq<char>, pos: int, url: Seq<char>, unzip: bool)
    requires
        ser_at(s, pos, DescView::Binary { url, unzip }),
    ensures
        ({
            let e = spec_esc(url).len();
            &&& spec_ser(DescView::Binary { url, unzip }).len() == 20 + e + (if unzip {
                5int
            } else {
                6int
            })
            &&& s.subrange(pos, pos + 12) == "Binary(url:\""@
            &&& esc_at(s, pos + 12, url)
            &&& s.subrange(pos + 13 + e, pos + 20 + e) == ",unzip:"@
            &&& (unzip ==> s.subrange(pos + 20 + e, pos + 25 + e) == "true)"@)
            &&& (!unzip ==> s.subrange(pos + 20 + e, pos + 26 + e) == "false)"@)
        }),
{
    lemma_tags();
    let d = DescView::Binary { url, unzip };
    let a = "Binary(url:\""@;
    let ee = spec_esc(url);
    let e = ee.len();
    let b = "\",unzip:"@;
    let cc = if unzip {
        "true)"@
    } else {
        "false)"@
    };
    assert(spec_ser(d) == a + ee + b + cc);
    assert(spec_ser(d) =~= a + (ee + (b + cc)));
    lemma_subrange_split(s, pos, a, ee + (b + cc));
    lemma_subrange_split(s, pos + 12, ee, b + cc);
    lemma_subrange_split(s, pos + 12 + e, b, cc);
    lemma_subrange_split(s, pos + 12 + e, seq!['"'], ",unzip:"@);
    assert(s.subrange(pos + 12 + e, pos + 13 + e)[0] == s[pos + 12 + e]);
    assert(s[pos + 12 + e] == '"');
    assert(esc_at(s, pos + 12, url));
}

/// Splits the text of a `Source` descriptor into its fixed pieces.
proof fn lemma_ser_at_source(s: Seq<char>, pos: int, url: Seq<char>)
    requires
        ser_at(s, pos, DescView::Source { zipball_url: url }),
    ensures
        ({
            let e = spec_esc(url).len();
            &&& spec_ser(DescView::Source { zipball_url: url }).len() == 22 + e
            &&& s.subrange(pos, pos + 20) == "Source(zipball_url:\""@
            &&& esc_at(s, pos + 20, url)
            &&& s.subrange(pos + 21 + e, pos + 22 + e) == ")"@
        }),
{
    lemma_tags();
    let d = DescView::Source { zipball_url: url };
    let a = "Source(zipball_url:\""@;
    let ee = spec_esc(url);
    let e = ee.len();
    let b = "\")"@;
    assert(spec_ser(d) == a + ee + b);
    assert(spec_ser(d) =~= a + (ee + b));
    lemma_subrange_split(s, pos, a, ee + b);
    lemma_subrange_split(s, pos + 20, ee, b);
    lemma_subrange_split(s, pos + 20 + e, seq!['"'], ")"@);
    assert(s.subrange(pos + 20 + e, pos + 21 + e)[0] == s[pos + 20 + e]);
    assert(s[pos + 20 + e] == '"');
    assert(esc_at(s, pos + 20, url));
}

/// Splits the text of a `Local` descriptor into its fixed pieces.
proof fn lemma_ser_at_local(s: Seq<char>, pos: int, binary: Seq<char>, origin: DescView)
    requires
        ser_at(s, pos, DescView::Local { binary, origin: Box::new(origin) }),
    ensures
        ({
            let e = spec_esc(binary).len();
            let o = spec_ser(origin).len();
            &&& spec_ser(DescView::Local { binary, origin: Box::new(origin) }).len() == 24 + e + o
            &&& s.subrange(pos, pos + 14) == "Local(binary:\""@
            &&& esc_at(s, pos + 14, binary)
            &&& s.subrange(pos + 15 + e, pos + 23 + e) == ",origin:"@
            &&& ser_at(s, pos + 23 + e, origin)
            &&& s.subrange(pos + 23 + e + o, pos + 24 + e + o) == ")"@
        }),
{
    lemma_tags();
    let d = DescView::Local { binary, origin: Box::new(origin) };
    let a = "Local(binary:\""@;
    let ee = spec_esc(binary);
    let e = ee.len();
    let b = "\",origin:"@;
    let oo = spec_ser(origin);
    let o = oo.len();
    let p = ")"@;
    assert(spec_ser(d) == a + ee + b + oo + p);
    assert(spec_ser(d) =~= a + (ee + (b + (oo + p))));
    lemma_subrange_split(s, pos, a, ee + (b + (oo + p)));
    lemma_subrange_split(s, pos + 14, ee, b + (oo + p));
    lemma_subrange_split(s, pos + 14 + e, b, oo + p);
    lemma_subrange_split(s, pos + 14 + e, seq!['"'], ",origin:"@);
    lemma_subrange_split(s, pos + 23 + e, oo, p);
    assert(s.subrange(pos + 14 + e, pos + 15 + e)[0] == s[pos + 14 + e]);
    assert(s[pos + 14 + e] == '"');
    assert(esc_at(s, pos + 14, binary));
    assert(ser_at(s, pos + 23 + e, origin));
}

/// Reads one descriptor starting at `pos`.  On any text a descriptor
/// was written into at `pos`, it returns that descriptor and stops
/// right after it.
fn parse_at(s: &str, n: usize, pos: usize) -> (r: Option<(VersionData, usize)>)
    requires
        n == s@.len(),
        pos <= n,
    ensures
        r matches Some((v, p)) ==> pos < p <= n,
        forall|d: DescView|
            ser_at(s@, pos as int, d) ==> (r matches Some((v, p)) && v@ == d && p == pos + spec_ser(
                d,
            ).len()),
    decreases n - pos,
{
    proof {
        lemma_tags();
    }
    if match_lit(s, n, pos, "GitLatest") {
        proof {
            assert forall|d: DescView| ser_at(s@, pos as int, d) implies d == DescView::GitLatest
                && spec_ser(d).len() == 9 by {
                lemma_ser_at_head(s@, pos as int, d);
                assert(s@.subrange(pos as int, pos as int + 9)[0] == s@[pos as int]);
                lemma_ser_first(d);
            }
        }
        return Some((VersionData::GitLatest, pos + 9));
    }
    if match_lit(s, n, pos, "NotFound") {
        proof {
            assert forall|d: DescView| ser_at(s@, pos as int, d) implies d == DescView::NotFound
                && spec_ser(d).len() == 8 by {
                lemma_ser_at_head(s@, pos as int, d);
                assert(s@.subrange(pos as int, pos as int + 8)[0] == s@[pos as int]);
                lemma_ser_first(d);
            }
        }
        return Some((VersionData::NotFound, pos + 8));
    }
    if match_lit(s, n, pos, "Binary(url:\"") {
        proof {
            assert forall|d: DescView| ser_at(s@, pos as int, d) implies d is Binary && esc_at(
                s@,
                pos as int + 12,
                d->Binary_url,
            ) by {
                lemma_ser_at_head(s@, pos as int, d);
                assert(s@.subrange(pos as int, pos as int + 12)[0] == s@[pos as int]);
                lemma_ser_first(d);
                lemma_ser_at_binary(s@, pos as int, d->Binary_url, d->Binary_unzip);
            }
        }
        let p0 = pos + 12;
        match scan_string(s, n, p0) {
            Some((url, p1)) => {
                proof {
                    assert forall|d: DescView| ser_at(s@, pos as int, d) implies url@
                        == d->Binary_url && p1 == pos + 13 + spec_esc(d->Binary_url).len() by {
                        lemma_ser_at_binary(s@, pos as int, d->Binary_url, d->Binary_unzip);
                    }
                }
                if match_lit(s, n, p1, ",unzip:") {
                    let p2 = p1 + 7;
                    if match_lit(s, n, p2, "true)") {
                        proof {
                            assert forall|d: DescView| ser_at(s@, pos as int, d) implies d
                                == DescView::Binary { url: url@, unzip: true } && p2 + 5 == pos
                                + spec_ser(d).len() by {
                                let e = spec_esc(d->Binary_url).len();
                                lemma_ser_at_binary(s@, pos as int, d->Binary_url, d->Binary_unzip);
                                if !d->Binary_unzip {
                                    assert(s@.subrange(pos as int + 20 + e, pos as int + 26 + e)[0]
                                        == s@[pos as int + 20 + e]);
                                    assert(s@.subrange(p2 as int, p2 as int + 5)[0]
                                        == s@[p2 as int]);
                                }
                            }
                        }
                        return Some((VersionData::Binary { url, unzip: true }, p2 + 5));
                    }
                    if match_lit(s, n, p2, "false)") {
                        proof {
                            assert forall|d: DescView| ser_at(s@, pos as int, d) implies d
                                == DescView::Binary { url: url@, unzip: false } && p2 + 6 == pos
                                + spec_ser(d).len() by {
                                let e = spec_esc(d->Binary_url).len();
                                lemma_ser_at_binary(s@, pos as int, d->Binary_url, d->Binary_unzip);
                                if d->Binary_unzip {
                                    assert(s@.subrange(pos as int + 20 + e, pos as int + 25 + e)[0]
                                        == s@[pos as int + 20 + e]);
                                    assert(s@.subrange(p2 as int, p2 as int + 6)[0]
                                        == s@[p2 as int]);
                                }
                            }
                        }
                        return Some((VersionData::Binary { url, unzip: false }, p2 + 6));
                    }
                    proof {
                        assert forall|d: DescView| ser_at(s@, pos as int, d) implies false by {
                            lemma_ser_at_binary(s@, pos as int, d->Binary_url, d->Binary_unzip);
                        }
                    }
                    return None;
                } else {
                    proof {
                        assert forall|d: DescView| ser_at(s@, pos as int, d) implies false by {
                            lemma_ser_at_binary(s@, pos as int, d->Binary_url, d->Binary_unzip);
                        }
                    }
                    return None;
                }
            },
            None => {
                proof {
                    assert forall|d: DescView| ser_at(s@, pos as int, d) implies false by {
                        lemma_ser_at_binary(s@, pos as int, d->Binary_url, d->Binary_unzip);
                    }
                }
                return None;
            },
        }
    }
    if match_lit(s, n, pos, "Source(zipball_url:\"") {
        proof {
            assert forall|d: DescView| ser_at(s@, pos as int, d) implies d is Source && esc_at(
                s@,
                pos as int + 20,
                d->Source_zipball_url,
            ) by {
                lemma_ser_at_head(s@, pos as int, d);
                assert(s@.subrange(pos as int, pos as int + 20)[0] == s@[pos as int]);
                lemma_ser_first(d);
                lemma_ser_at_source(s@, pos as int, d->Source_zipball_url);
            }
        }
        let p0 = pos + 20;
        match scan_string(s, n, p0) {
            Some((url, p1)) => {
                if match_lit(s, n, p1, ")") {
                    proof {
                        assert forall|d: DescView| ser_at(s@, pos as int, d) implies d
                            == DescView::Source { zipball_url: url@ } && p1 + 1 == pos + spec_ser(
                            d,
                        ).len() by {
                            lemma_ser_at_source(s@, pos as int, d->Source_zipball_url);
                        }
                    }
                    return Some((VersionData::Source { zipball_url: url }, p1 + 1));
                } else {
                    proof {
                        assert forall|d: DescView| ser_at(s@, pos as int, d) implies false by {
                            lemma_ser_at_source(s@, pos as int, d->Source_zipball_url);
                        }
                    }
                    return None;
                }
            },
            None => {
                proof {
                    assert forall|d: DescView| ser_at(s@, pos as int, d) implies false by {
                        lemma_ser_at_source(s@, pos as int, d->Source_zipball_url);
                    }
                }
                return None;
            },
        }
    }
    if match_lit(s, n, pos, "Local(binary:\"") {
        proof {
            assert forall|d: DescView| ser_at(s@, pos as int, d) implies d is Local && esc_at(
                s@,
                pos as int + 14,
                d->Local_binary,
            ) by {
                lemma_ser_at_head(s@, pos as int, d);
                assert(s@.subrange(pos as int, pos as int + 14)[0] == s@[pos as int]);
                lemma_ser_first(d);
                lemma_ser_at_local(s@, pos as int, d->Local_binary, *d->Local_origin);
            }
        }
        let p0 = pos + 14;
        match scan_string(s, n, p0) {
            Some((binary, p1)) => {
                proof {
                    assert forall|d: DescView| ser_at(s@, pos as int, d) implies binary@
                        == d->Local_binary && p1 == pos + 15 + spec_esc(d->Local_binary).len()
                        && ser_at(s@, p1 as int + 8, *d->Local_origin) by {
                        lemma_ser_at_local(s@, pos as int, d->Local_binary, *d->Local_origin);
                    }
                }
                if match_lit(s, n, p1, ",origin:") {
                    let p2 = p1 + 8;
                    match parse_at(s, n, p2) {
                        Some((ov, p3)) => {
                            proof {
                                assert forall|d: DescView| ser_at(s@, pos as int, d) implies ov@
                                    == *d->Local_origin && p3 == p2 + spec_ser(
                                    *d->Local_origin,
                                ).len() by {
                                    assert(ser_at(s@, p2 as int, *d->Local_origin));
                                }
                            }
                            if match_lit(s, n, p3, ")") {
                                proof {
                                    assert forall|d: DescView| ser_at(
                                        s@,
                                        pos as int,
                                        d,
                                    ) implies d == (DescView::Local {
                                        binary: binary@,
                                        origin: Box::new(ov@),
                                    }) && p3 + 1 == pos + spec_ser(d).len() by {
                                        lemma_ser_at_local(
                                            s@,
                                            pos as int,
                                            d->Local_binary,
                                            *d->Local_origin,
                                        );
                                    }
                                }
                                return Some(
                                    (
                                        VersionData::Local { binary, origin: Box::new(ov) },
                                        p3 + 1,
                                    ),
                                );
                            } else {
                                proof {
                                    assert forall|d: DescView| ser_at(
                                        s@,
                                        pos as int,
                                        d,
                                    ) implies false by {
                                        lemma_ser_at_local(
                                            s@,
                                            pos as int,
                                            d->Local_binary,
                                            *d->Local_origin,
                                        );
                                    }
                                }
                                return None;
                            }
                        },
                        None => {
                            proof {
                                assert forall|d: DescView| ser_at(s@, pos as int, d) implies false
                                    by {
                                    assert(ser_at(s@, p2 as int, *d->Local_origin));
                                }
                            }
                            return None;
                        },
                    }
                } else {
                    proof {
                        assert forall|d: DescView| ser_at(s@, pos as int, d) implies false by {
                            lemma_ser_at_local(s@, pos as int, d->Local_binary, *d->Local_origin);
                        }
                    }
                    return None;
                }
            },
            None => {
                proof {
                    assert forall|d: DescView| ser_at(s@, pos as int, d) implies false by {
                        lemma_ser_at_local(s@, pos as int, d->Local_binary, *d->Local_origin);
                    }
                }
                return None;
            },
        }
    }
    proof {
        assert forall|d: DescView| ser_at(s@, pos as int, d) implies false by {
            lemma_ser_first(d);
            match d {
                DescView::GitLatest => {},
                DescView::Binary { url, unzip } => {
                    lemma_ser_at_binary(s@, pos as int, url, unzip);
                },
                DescView::Source { zipball_url } => {
                    lemma_ser_at_source(s@, pos as int, zipball_url);
                },
                DescView::Local { binary, origin } => {
                    lemma_ser_at_local(s@, pos as int, binary, *origin);
                },
                DescView::NotFound => {},
            }
        }
    }
    None
}

/// Reads a whole sidecar text back into a descriptor.
///
/// Together with [`serialize_descriptor`] this states the round-trip
/// law of the format: for every well-formed descriptor `d`, parsing
/// the text of `d` yields exactly `d`; and whatever parses is itself
/// well-formed.
pub fn parse_descriptor(s: &str) -> (r: Option<VersionData>)
    ensures
        r matches Some(v) ==> v@.wf(),
        forall|d: DescView| d.wf() && s@ == spec_ser(d) ==> (r matches Some(v) && v@ == d),
{
    let n = s.unicode_len();
    match parse_at(s, n, 0) {
        Some((v, p)) => {
            let wf_ok = v.is_wf();
            if p == n && wf_ok {
                proof {
                    assert forall|d: DescView| d.wf() && s@ == spec_ser(d) implies v@ == d by {
                        assert(s@.subrange(0, spec_ser(d).len() as int) =~= spec_ser(d));
                        assert(ser_at(s@, 0, d));
                    }
                }
                Some(v)
            } else {
                proof {
                    assert forall|d: DescView| d.wf() && s@ == spec_ser(d) implies false by {
                        assert(s@.subrange(0, spec_ser(d).len() as int) =~= spec_ser(d));
                        assert(ser_at(s@, 0, d));
                    }
                }
                None
            }
        },
        None => {
            proof {
                assert forall|d: DescView| d.wf() && s@ == spec_ser(d) implies false by {
                    assert(s@.subrange(0, spec_ser(d).len() as int) =~= spec_ser(d));
                    assert(ser_at(s@, 0, d));
                }
            }
            None
        },
    }
}

} // verus!
