//! Quoted-string escaping for the persistence format: the escape of each
//! character, the writer, the reader, and the proof that reading undoes
//! writing.

use vstd::prelude::*;
use crate::span::{at_pos, lemma_at_pos_index, lemma_at_pos_split};

verus! {

/// Hexadecimal digit characters, lowercase.
pub open spec fn hex_char(d: nat) -> char {
    if d == 0 {
        '0'
    } else if d == 1 {
        '1'
    } else if d == 2 {
        '2'
    } else if d == 3 {
        '3'
    } else if d == 4 {
        '4'
    } else if d == 5 {
        '5'
    } else if d == 6 {
        '6'
    } else if d == 7 {
        '7'
    } else if d == 8 {
        '8'
    } else if d == 9 {
        '9'
    } else if d == 10 {
        'a'
    } else if d == 11 {
        'b'
    } else if d == 12 {
        'c'
    } else if d == 13 {
        'd'
    } else if d == 14 {
        'e'
    } else {
        'f'
    }
}

/// Value of a hexadecimal digit character, or 16 for any other character.
pub open spec fn hex_val(c: char) -> nat {
    if c == '0' {
        0
    } else if c == '1' {
        1
    } else if c == '2' {
        2
    } else if c == '3' {
        3
    } else if c == '4' {
        4
    } else if c == '5' {
        5
    } else if c == '6' {
        6
    } else if c == '7' {
        7
    } else if c == '8' {
        8
    } else if c == '9' {
        9
    } else if c == 'a' {
        10
    } else if c == 'b' {
        11
    } else if c == 'c' {
        12
    } else if c == 'd' {
        13
    } else if c == 'e' {
        14
    } else if c == 'f' {
        15
    } else {
        16
    }
}

/// A character that stands for itself inside a quoted string.
pub open spec fn is_plain(c: char) -> bool {
    c != '"' && c != '\\' && (c as u32) >= 32
}

/// The escape of one character: the two-character short escapes of the
/// format, `\u00..` for the remaining control characters, and every other
/// character as itself.
pub open spec fn esc_char(c: char) -> Seq<char> {
    if c == '"' {
        seq!['\\', '"']
    } else if c == '\\' {
        seq!['\\', '\\']
    } else if c == '\u{8}' {
        seq!['\\', 'b']
    } else if c == '\u{c}' {
        seq!['\\', 'f']
    } else if c == '\n' {
        seq!['\\', 'n']
    } else if c == '\r' {
        seq!['\\', 'r']
    } else if c == '\t' {
        seq!['\\', 't']
    } else if (c as u32) < 32 {
        seq!['\\', 'u', '0', '0', hex_char((c as u32 / 16) as nat), hex_char((c as u32 % 16) as nat)]
    } else {
        seq![c]
    }
}

/// The escape of a whole string.
pub open spec fn esc_str(s: Seq<char>) -> Seq<char>
    decreases s.len(),
{
    if s.len() == 0 {
        Seq::empty()
    } else {
        esc_char(s[0]) + esc_str(s.skip(1))
    }
}

/// A string as serialized: quoted, with its characters escaped.
pub open spec fn json_string(s: Seq<char>) -> Seq<char> {
    seq!['"'] + esc_str(s) + seq!['"']
}

fn hex_of(d: usize) -> (c: char)
    requires
        d < 16,
    ensures
        c == hex_char(d as nat),
{
    if d == 0 {
        '0'
    } else if d == 1 {
        '1'
    } else if d == 2 {
        '2'
    } else if d == 3 {
        '3'
    } else if d == 4 {
        '4'
    } else if d == 5 {
        '5'
    } else if d == 6 {
        '6'
    } else if d == 7 {
        '7'
    } else if d == 8 {
        '8'
    } else if d == 9 {
        '9'
    } else if d == 10 {
        'a'
    } else if d == 11 {
        'b'
    } else if d == 12 {
        'c'
    } else if d == 13 {
        'd'
    } else if d == 14 {
        'e'
    } else {
        'f'
    }
}

/// Appends the escape of one character.
fn push_esc_char(out: &mut Vec<char>, c: char)
    ensures
        final(out)@ == old(out)@ + esc_char(c),
{
    if c == '"' {
        out.push('\\');
        out.push('"');
        proof {
            assert(out@ =~= old(out)@ + esc_char(c));
        }
    } else if c == '\\' {
        out.push('\\');
        out.push('\\');
        proof {
            assert(out@ =~= old(out)@ + esc_char(c));
        }
    } else if c == '\u{8}' {
        out.push('\\');
        out.push('b');
        proof {
            assert(out@ =~= old(out)@ + esc_char(c));
        }
    } else if c == '\u{c}' {
        out.push('\\');
        out.push('f');
        proof {
            assert(out@ =~= old(out)@ + esc_char(c));
        }
    } else if c == '\n' {
        out.push('\\');
        out.push('n');
        proof {
            assert(out@ =~= old(out)@ + esc_char(c));
        }
    } else if c == '\r' {
        out.push('\\');
        out.push('r');
        proof {
            assert(out@ =~= old(out)@ + esc_char(c));
        }
    } else if c == '\t' {
        out.push('\\');
        out.push('t');
        proof {
            assert(out@ =~= old(out)@ + esc_char(c));
        }
    } else {
        let code = c as u32;
        if code < 32 {
            out.push('\\');
            out.push('u');
            out.push('0');
            out.push('0');
            out.push(hex_of((code / 16) as usize));
            out.push(hex_of((code % 16) as usize));
            proof {
                assert(out@ =~= old(out)@ + esc_char(c));
            }
        } else {
            out.push(c);
            proof {
                assert(out@ =~= old(out)@ + esc_char(c));
            }
        }
    }
}

/// Appends the escape of `s` from position `i` on.
fn push_esc_from(out: &mut Vec<char>, s: &Vec<char>, i: usize)
    requires
        i <= s@.len(),
    ensures
        final(out)@ == old(out)@ + esc_str(s@.skip(i as int)),
    decreases s@.len() - i,
{
    if i < s.len() {
        push_esc_char(out, s[i]);
        push_esc_from(out, s, i + 1);
        proof {
            assert(s@.skip(i as int)[0] == s@[i as int]);
            assert(s@.skip(i as int).skip(1) =~= s@.skip(i + 1));
            assert(old(out)@ + esc_char(s@[i as int]) + esc_str(s@.skip(i + 1)) =~= old(out)@
                + esc_str(s@.skip(i as int)));
        }
    } else {
        proof {
            assert(s@.skip(i as int) =~= Seq::<char>::empty());
            assert(out@ =~= old(out)@ + esc_str(s@.skip(i as int)));
        }
    }
}

/// Appends `s` as a quoted, escaped string.
pub fn push_json_string(out: &mut Vec<char>, s: &Vec<char>)
    ensures
        final(out)@ == old(out)@ + json_string(s@),
{
    out.push('"');
    push_esc_from(out, s, 0);
    out.push('"');
    proof {
        assert(s@.skip(0) =~= s@);
        assert(out@ =~= old(out)@ + json_string(s@));
    }
}

/// Consumes the body of a quoted string after its opening quote, up to and
/// including the closing quote, unescaping as it goes; `acc` carries what was
/// already read.
pub open spec fn p_strbody(s: Seq<char>, i: int, acc: Seq<char>) -> Option<(Seq<char>, int)>
    decreases s.len() - i,
{
    if i < 0 || i >= s.len() {
        None
    } else if s[i] == '"' {
        Some((acc, i + 1))
    } else if s[i] == '\\' {
        if i + 1 >= s.len() {
            None
        } else {
            let e = s[i + 1];
            if e == '"' {
                p_strbody(s, i + 2, acc.push('"'))
            } else if e == '\\' {
                p_strbody(s, i + 2, acc.push('\\'))
            } else if e == 'b' {
                p_strbody(s, i + 2, acc.push('\u{8}'))
            } else if e == 'f' {
                p_strbody(s, i + 2, acc.push('\u{c}'))
            } else if e == 'n' {
                p_strbody(s, i + 2, acc.push('\n'))
            } else if e == 'r' {
                p_strbody(s, i + 2, acc.push('\r'))
            } else if e == 't' {
                p_strbody(s, i + 2, acc.push('\t'))
            } else if e == 'u' {
                if i + 6 > s.len() {
                    None
                } else if s[i + 2] == '0' && s[i + 3] == '0' && hex_val(s[i + 4]) < 16 && hex_val(
                    s[i + 5],
                ) < 16 && hex_val(s[i + 4]) * 16 + hex_val(s[i + 5]) < 32 {
                    p_strbody(
                        s,
                        i + 6,
                        acc.push(((hex_val(s[i + 4]) * 16 + hex_val(s[i + 5])) as u32) as char),
                    )
                } else {
                    None
                }
            } else {
                None
            }
        }
    } else if (s[i] as u32) >= 32 {
        p_strbody(s, i + 1, acc.push(s[i]))
    } else {
        None
    }
}

/// Consumes a whole quoted string standing at `i`.
pub open spec fn p_string(s: Seq<char>, i: int) -> Option<(Seq<char>, int)> {
    if 0 <= i < s.len() && s[i] == '"' {
        p_strbody(s, i + 1, Seq::empty())
    } else {
        None
    }
}

fn hex_val_of(c: char) -> (d: usize)
    ensures
        d as nat == hex_val(c),
{
    if c == '0' {
        0
    } else if c == '1' {
        1
    } else if c == '2' {
        2
    } else if c == '3' {
        3
    } else if c == '4' {
        4
    } else if c == '5' {
        5
    } else if c == '6' {
        6
    } else if c == '7' {
        7
    } else if c == '8' {
        8
    } else if c == '9' {
        9
    } else if c == 'a' {
        10
    } else if c == 'b' {
        11
    } else if c == 'c' {
        12
    } else if c == 'd' {
        13
    } else if c == 'e' {
        14
    } else if c == 'f' {
        15
    } else {
        16
    }
}

fn parse_strbody(v: &Vec<char>, i: usize, acc: Vec<char>) -> (r: Option<(Vec<char>, usize)>)
    ensures
        match r {
            Some(p) => {
                &&& p_strbody(v@, i as int, acc@) == Some((p.0@, p.1 as int))
                &&& p.1 <= v@.len()
            },
            None => p_strbody(v@, i as int, acc@) is None,
        },
    decreases v@.len() - i,
{
    if i >= v.len() {
        return None;
    }
    let c = v[i];
    if c == '"' {
        Some((acc, i + 1))
    } else if c == '\\' {
        if i + 1 >= v.len() {
            None
        } else {
            let e = v[i + 1];
            let mut acc2 = acc;
            if e == '"' {
                acc2.push('"');
                parse_strbody(v, i + 2, acc2)
            } else if e == '\\' {
                acc2.push('\\');
                parse_strbody(v, i + 2, acc2)
            } else if e == 'b' {
                acc2.push('\u{8}');
                parse_strbody(v, i + 2, acc2)
            } else if e == 'f' {
                acc2.push('\u{c}');
                parse_strbody(v, i + 2, acc2)
            } else if e == 'n' {
                acc2.push('\n');
                parse_strbody(v, i + 2, acc2)
            } else if e == 'r' {
                acc2.push('\r');
                parse_strbody(v, i + 2, acc2)
            } else if e == 't' {
                acc2.push('\t');
                parse_strbody(v, i + 2, acc2)
            } else if e == 'u' {
                if v.len() - i < 6 {
                    None
                } else {
                    let h1 = hex_val_of(v[i + 4]);
                    let h2 = hex_val_of(v[i + 5]);
                    if v[i + 2] == '0' && v[i + 3] == '0' && h1 < 16 && h2 < 16 && h1 * 16 + h2
                        < 32 {
                        let u: usize = h1 * 16 + h2;
                        acc2.push((u as u8) as char);
                        proof {
                            assert((u as u8) as char == ((hex_val(v@[i + 4]) * 16 + hex_val(
                                v@[i + 5],
                            )) as u32) as char);
                        }
                        parse_strbody(v, i + 6, acc2)
                    } else {
                        None
                    }
                }
            } else {
                None
            }
        }
    } else if (c as u32) >= 32 {
        let mut acc2 = acc;
        acc2.push(c);
        parse_strbody(v, i + 1, acc2)
    } else {
        None
    }
}

/// Runs [`p_string`] on a vector.
pub fn parse_string(v: &Vec<char>, i: usize) -> (r: Option<(Vec<char>, usize)>)
    ensures
        match r {
            Some(p) => {
                &&& p_string(v@, i as int) == Some((p.0@, p.1 as int))
                &&& p.1 <= v@.len()
            },
            None => p_string(v@, i as int) is None,
        },
{
    if i < v.len() {
        let c = v[i];
        if c == '"' {
            parse_strbody(v, i + 1, Vec::new())
        } else {
            None
        }
    } else {
        None
    }
}

/// An escaped string followed by its closing quote reads back as exactly the
/// string that was written, appended to what was already read.
pub proof fn lemma_strbody_rt(s: Seq<char>, i: int, content: Seq<char>, acc: Seq<char>)
    requires
        at_pos(s, i, esc_str(content) + seq!['"']),
    ensures
        p_strbody(s, i, acc) == Some((acc + content, i + esc_str(content).len() + 1)),
    decreases content.len(),
{
    if content.len() == 0 {
        assert(esc_str(content) + seq!['"'] =~= seq!['"']);
        lemma_at_pos_index(s, i, esc_str(content) + seq!['"'], 0);
        assert(s[i] == '"');
        assert(acc + content =~= acc);
    } else {
        let c = content[0];
        let rest = content.skip(1);
        let e = esc_char(c);
        assert(esc_str(content) == e + esc_str(rest));
        assert(esc_str(content) + seq!['"'] =~= e + (esc_str(rest) + seq!['"']));
        lemma_at_pos_split(s, i, e, esc_str(rest) + seq!['"']);
        assert(acc.push(c) + rest =~= acc + content);
        if c == '"' {
            assert(s[i] == '\\' && s[i + 1] == '"');
            lemma_strbody_rt(s, i + 2, rest, acc.push(c));
        } else if c == '\\' {
            assert(s[i] == '\\' && s[i + 1] == '\\');
            lemma_strbody_rt(s, i + 2, rest, acc.push(c));
        } else if c == '\u{8}' {
            assert(s[i] == '\\' && s[i + 1] == 'b');
            lemma_strbody_rt(s, i + 2, rest, acc.push(c));
        } else if c == '\u{c}' {
            assert(s[i] == '\\' && s[i + 1] == 'f');
            lemma_strbody_rt(s, i + 2, rest, acc.push(c));
        } else if c == '\n' {
            assert(s[i] == '\\' && s[i + 1] == 'n');
            lemma_strbody_rt(s, i + 2, rest, acc.push(c));
        } else if c == '\r' {
            assert(s[i] == '\\' && s[i + 1] == 'r');
            lemma_strbody_rt(s, i + 2, rest, acc.push(c));
        } else if c == '\t' {
            assert(s[i] == '\\' && s[i + 1] == 't');
            lemma_strbody_rt(s, i + 2, rest, acc.push(c));
        } else if (c as u32) < 32 {
            let hi: nat = (c as u32 / 16) as nat;
            let lo: nat = (c as u32 % 16) as nat;
            assert(s[i] == '\\' && s[i + 1] == 'u' && s[i + 2] == '0' && s[i + 3] == '0');
            assert(s[i + 4] == hex_char(hi) && s[i + 5] == hex_char(lo));
            assert(hex_val(hex_char(hi)) == hi);
            assert(hex_val(hex_char(lo)) == lo);
            assert(hi * 16 + lo == c as u32);
            vstd::utf8::char_u32_cast(c, (hi * 16 + lo) as u32);
            assert(((hi * 16 + lo) as u32) as char == c);
            lemma_strbody_rt(s, i + 6, rest, acc.push(c));
        } else {
            assert(e == seq![c]);
            lemma_at_pos_index(s, i, e, 0);
            assert(s[i] == c);
            assert(is_plain(c));
            lemma_strbody_rt(s, i + 1, rest, acc.push(c));
        }
    }
}

/// A serialized string standing at `i` reads back as the string it was
/// written from.
pub proof fn lemma_string_rt(s: Seq<char>, i: int, content: Seq<char>)
    requires
        at_pos(s, i, json_string(content)),
    ensures
        p_string(s, i) == Some((content, i + json_string(content).len() as int)),
{
    assert(json_string(content) =~= seq!['"'] + (esc_str(content) + seq!['"']));
    lemma_at_pos_split(s, i, seq!['"'], esc_str(content) + seq!['"']);
    lemma_at_pos_index(s, i, seq!['"'], 0);
    assert(s[i] == '"');
    lemma_strbody_rt(s, i + 1, content, Seq::empty());
    assert(Seq::empty() + content =~= content);
}

} // verus!
