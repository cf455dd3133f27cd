use vstd::prelude::*;

use vstd::std_specs::iter::IteratorSpec;
use vstd::string::StringExecFns;

verus! {

/// Appends `c` to `out` (`String::push`, which vstd gives no contract).
#[verifier::external_body]
fn append_char(out: &mut String, c: char)
    ensures
        final(out)@ == old(out)@.push(c),
{
    out.push(c)
}

/// A control character: U+0000 to U+001F, and U+007F.
pub open spec fn is_control(c: char) -> bool {
    (c as u32) < 0x20 || (c as u32) == 0x7f
}

/// The lower-case hexadecimal digit of `d` (below 16).
pub open spec fn hex_digit(d: nat) -> char {
    if d == 0 { '0' }
    else if d == 1 { '1' }
    else if d == 2 { '2' }
    else if d == 3 { '3' }
    else if d == 4 { '4' }
    else if d == 5 { '5' }
    else if d == 6 { '6' }
    else if d == 7 { '7' }
    else if d == 8 { '8' }
    else if d == 9 { '9' }
    else if d == 10 { 'a' }
    else if d == 11 { 'b' }
    else if d == 12 { 'c' }
    else if d == 13 { 'd' }
    else if d == 14 { 'e' }
    else { 'f' }
}

/// The value of a lower-case hexadecimal digit.
pub open spec fn hex_value(h: char) -> nat {
    if h == '1' { 1 }
    else if h == '2' { 2 }
    else if h == '3' { 3 }
    else if h == '4' { 4 }
    else if h == '5' { 5 }
    else if h == '6' { 6 }
    else if h == '7' { 7 }
    else if h == '8' { 8 }
    else if h == '9' { 9 }
    else if h == 'a' { 10 }
    else if h == 'b' { 11 }
    else if h == 'c' { 12 }
    else if h == 'd' { 13 }
    else if h == 'e' { 14 }
    else if h == 'f' { 15 }
    else { 0 }
}

/// What stands in a string token for one character of its text: a
/// backslash before a quote or a backslash, `\n`, `\r` and `\t` for those
/// three, `\x` and two hexadecimal digits for any other control character.
pub open spec fn escape_char(c: char) -> Seq<char> {
    if c == '\\' {
        seq!['\\', '\\']
    } else if c == '"' {
        seq!['\\', '"']
    } else if c == '\n' {
        seq!['\\', 'n']
    } else if c == '\r' {
        seq!['\\', 'r']
    } else if c == '\t' {
        seq!['\\', 't']
    } else if is_control(c) {
        seq!['\\', 'x', hex_digit((c as u32 / 16) as nat), hex_digit((c as u32 % 16) as nat)]
    } else {
        seq![c]
    }
}

/// The escaped form of a whole text.
pub open spec fn escape(s: Seq<char>) -> Seq<char>
    decreases s.len(),
{
    if s.len() == 0 {
        Seq::empty()
    } else {
        escape(s.drop_last()) + escape_char(s.last())
    }
}

/// The character that a backslash followed by `c` stands for.
pub open spec fn unescape_char(c: char) -> char {
    if c == 'n' {
        '\n'
    } else if c == 'r' {
        '\r'
    } else if c == 't' {
        '\t'
    } else {
        c
    }
}

/// The character that `\x` followed by the digits `h` and `l` stands for.
pub open spec fn hex_char(h: char, l: char) -> char {
    ((16 * hex_value(h) + hex_value(l)) as u32) as char
}

/// How a reader of the document decodes the inside of a string token.
pub open spec fn unescape(t: Seq<char>) -> Seq<char>
    decreases t.len(),
{
    if t.len() == 0 {
        Seq::empty()
    } else if t[0] == '\\' && t.len() >= 4 && t[1] == 'x' {
        seq![hex_char(t[2], t[3])] + unescape(t.skip(4))
    } else if t[0] == '\\' && t.len() >= 2 {
        seq![unescape_char(t[1])] + unescape(t.skip(2))
    } else {
        seq![t[0]] + unescape(t.skip(1))
    }
}

/// A whole string token: the escaped text between quotes, then a space.
pub open spec fn string_token(s: Seq<char>) -> Seq<char> {
    seq!['"'] + escape(s) + seq!['"', ' ']
}

pub open spec fn digit_char(d: nat) -> char {
    if d == 0 { '0' }
    else if d == 1 { '1' }
    else if d == 2 { '2' }
    else if d == 3 { '3' }
    else if d == 4 { '4' }
    else if d == 5 { '5' }
    else if d == 6 { '6' }
    else if d == 7 { '7' }
    else if d == 8 { '8' }
    else { '9' }
}

/// The decimal digits of `n`, without leading zeros.
pub open spec fn decimal(n: nat) -> Seq<char>
    decreases n,
{
    if n < 10 {
        seq![digit_char(n)]
    } else {
        decimal(n / 10) + seq![digit_char(n % 10)]
    }
}

proof fn lemma_escape_append(a: Seq<char>, b: Seq<char>)
    ensures
        escape(a + b) == escape(a) + escape(b),
    decreases b.len(),
{
    if b.len() == 0 {
        assert(a + b =~= a);
        assert(escape(a) + escape(b) =~= escape(a));
    } else {
        lemma_escape_append(a, b.drop_last());
        assert((a + b).drop_last() =~= a + b.drop_last());
        assert((a + b).last() == b.last());
        assert(escape(a + b) =~= escape(a) + escape(b));
    }
}

proof fn lemma_hex_digit(d: nat)
    requires
        d < 16,
    ensures
        hex_value(hex_digit(d)) == d,
        !is_control(hex_digit(d)),
        hex_digit(d) != '"',
{
}

proof fn lemma_unescape_one(c: char, rest: Seq<char>)
    ensures
        unescape(escape_char(c) + rest) == seq![c] + unescape(rest),
{
    let t = escape_char(c) + rest;
    if c == '\\' || c == '"' || c == '\n' || c == '\r' || c == '\t' {
        assert(t.skip(2) =~= rest);
    } else if is_control(c) {
        let v = c as u32;
        lemma_hex_digit((v / 16) as nat);
        lemma_hex_digit((v % 16) as nat);
        assert(t.skip(4) =~= rest);
        assert(16 * hex_value(t[2]) + hex_value(t[3]) == v);
        assert(hex_char(t[2], t[3]) == c);
    } else {
        assert(t.skip(1) =~= rest);
    }
}

/// Decoding the escaped form of any text gives that text back.
pub proof fn lemma_escape_round_trip(s: Seq<char>)
    ensures
        unescape(escape(s)) == s,
    decreases s.len(),
{
    if s.len() > 0 {
        let head = seq![s[0]];
        let tail = s.skip(1);
        assert(s =~= head + tail);
        lemma_escape_append(head, tail);
        assert(head.drop_last() =~= Seq::<char>::empty());
        assert(escape(head.drop_last()) =~= Seq::<char>::empty());
        assert(head.last() == s[0]);
        assert(escape(head) =~= escape(head.drop_last()) + escape_char(head.last()));
        assert(escape(head) =~= escape_char(s[0]));
        lemma_unescape_one(s[0], escape(tail));
        lemma_escape_round_trip(tail);
    }
}

proof fn lemma_escape_char_clean(c: char)
    ensures
        forall|i: int| 0 <= i < escape_char(c).len() ==> !is_control(#[trigger] escape_char(c)[i]),
        forall|i: int|
            0 <= i < escape_char(c).len() && #[trigger] escape_char(c)[i] == '"' ==> i > 0
                && escape_char(c)[i - 1] == '\\',
{
    if is_control(c) && !(c == '\n' || c == '\r' || c == '\t') {
        lemma_hex_digit((c as u32 / 16) as nat);
        lemma_hex_digit((c as u32 % 16) as nat);
    }
}

/// The escaped form of a text holds no control character, and each quote in
/// it comes right after a backslash.
pub proof fn lemma_escape_clean(s: Seq<char>)
    ensures
        forall|i: int| 0 <= i < escape(s).len() ==> !is_control(#[trigger] escape(s)[i]),
        forall|i: int|
            0 <= i < escape(s).len() && #[trigger] escape(s)[i] == '"' ==> i > 0 && escape(s)[i - 1]
                == '\\',
    decreases s.len(),
{
    if s.len() > 0 {
        lemma_escape_clean(s.drop_last());
        lemma_escape_char_clean(s.last());
        let e = escape(s);
        let p = escape(s.drop_last());
        let q = escape_char(s.last());
        assert(e == p + q);
        assert forall|i: int| 0 <= i < e.len() implies !is_control(#[trigger] e[i]) by {
            if i < p.len() {
                assert(e[i] == p[i]);
            } else {
                assert(e[i] == q[i - p.len()]);
            }
        }
        assert forall|i: int| 0 <= i < e.len() && #[trigger] e[i] == '"' implies i > 0 && e[i - 1]
            == '\\' by {
            if i < p.len() {
                assert(e[i] == p[i]);
                assert(e[i - 1] == p[i - 1]);
            } else {
                assert(e[i] == q[i - p.len()]);
                assert(e[i - 1] == q[i - 1 - p.len()]);
            }
        }
    }
}

/// A string token, read back by its reader, gives the text that was written:
/// it opens with a quote, its closing quote is the first quote without a
/// backslash before it, and the characters between the two decode to the
/// text.
pub proof fn lemma_string_token_round_trip(s: Seq<char>)
    ensures
        string_token(s)[0] == '"',
        string_token(s).len() == escape(s).len() + 3,
        string_token(s)[escape(s).len() as int + 1] == '"',
        forall|i: int|
            1 <= i < escape(s).len() as int + 1 && #[trigger] string_token(s)[i] == '"' ==> string_token(
                s,
            )[i - 1] == '\\',
        unescape(string_token(s).subrange(1, escape(s).len() as int + 1)) == s,
{
    let t = string_token(s);
    let e = escape(s);
    assert(t.subrange(1, e.len() as int + 1) =~= e);
    lemma_escape_round_trip(s);
    lemma_escape_clean(s);
    assert forall|i: int| 1 <= i < e.len() + 1 && #[trigger] t[i] == '"' implies t[i - 1] == '\\' by {
        assert(t[i] == e[i - 1]);
        if i > 1 {
            assert(t[i - 1] == e[i - 2]);
        }
    }
}

/// The hexadecimal digit of `d`.
fn hex_digit_of(d: u32) -> (r: char)
    requires
        d < 16,
    ensures
        r == hex_digit(d as nat),
{
    if d == 0 { '0' }
    else if d == 1 { '1' }
    else if d == 2 { '2' }
    else if d == 3 { '3' }
    else if d == 4 { '4' }
    else if d == 5 { '5' }
    else if d == 6 { '6' }
    else if d == 7 { '7' }
    else if d == 8 { '8' }
    else if d == 9 { '9' }
    else if d == 10 { 'a' }
    else if d == 11 { 'b' }
    else if d == 12 { 'c' }
    else if d == 13 { 'd' }
    else if d == 14 { 'e' }
    else { 'f' }
}

/// Writes the tokens of the document, one after another, to a text buffer.
pub struct TokenWriter {
    pub out: String,
}

impl TokenWriter {
    /// A writer with nothing written yet.
    pub fn new() -> (r: TokenWriter)
        ensures
            r.out@ == Seq::<char>::empty(),
    {
        TokenWriter { out: String::new() }
    }

    /// Writes `s` as it is.
    pub fn writeRaw(&mut self, s: &str)
        ensures
            final(self).out@ == old(self).out@ + s@,
    {
        self.out.append(s);
    }

    /// Writes the decimal form of `n`.
    pub fn writeNumber(&mut self, n: usize)
        ensures
            final(self).out@ == old(self).out@ + decimal(n as nat),
        decreases n,
    {
        if n >= 10 {
            self.writeNumber(n / 10);
        }
        let d: usize = n % 10;
        let c = if d == 0 { '0' }
            else if d == 1 { '1' }
            else if d == 2 { '2' }
            else if d == 3 { '3' }
            else if d == 4 { '4' }
            else if d == 5 { '5' }
            else if d == 6 { '6' }
            else if d == 7 { '7' }
            else if d == 8 { '8' }
            else { '9' };
        append_char(&mut self.out, c);
        proof {
            if n >= 10 {
                assert(decimal(n as nat) == decimal((n / 10) as nat) + seq![digit_char((n % 10) as nat)]);
            }
        }
        assert(final(self).out@ == old(self).out@ + decimal(n as nat));
    }

    /// Writes `s` as a string token: between quotes, with backslashes, quotes
    /// and line breaks escaped, then a space.
    pub fn writeStringToken(&mut self, s: &str)
        ensures
            final(self).out@ == old(self).out@ + string_token(s@),
    {
        broadcast use vstd::string::next_postcondition, vstd::string::axiom_spec_iter;

        let ghost start = self.out@;
        append_char(&mut self.out, '"');
        let mut it = s.chars();
        let ghost mut k: int = 0;
        loop
            invariant
                0 <= k <= s@.len(),
                it.remaining() == s@.skip(k),
                self.out@ == start + seq!['"'] + escape(s@.take(k)),
            ensures
                k == s@.len(),
                self.out@ == start + seq!['"'] + escape(s@.take(k)),
            decreases s@.len() - k,
        {
            match it.next() {
                None => {
                    assert(s@.skip(k).len() == s@.len() - k);
                    break;
                },
                Some(c) => {
                    proof {
                        assert(s@.take(k + 1).drop_last() =~= s@.take(k));
                        assert(s@.skip(k)[0] == s@[k]);
                        assert(s@.skip(k).drop_first() =~= s@.skip(k + 1));
                    }
                    if c == '\\' {
                        append_char(&mut self.out, '\\');
                        append_char(&mut self.out, '\\');
                    } else if c == '"' {
                        append_char(&mut self.out, '\\');
                        append_char(&mut self.out, '"');
                    } else if c == '\n' {
                        append_char(&mut self.out, '\\');
                        append_char(&mut self.out, 'n');
                    } else if c == '\r' {
                        append_char(&mut self.out, '\\');
                        append_char(&mut self.out, 'r');
                    } else if c == '\t' {
                        append_char(&mut self.out, '\\');
                        append_char(&mut self.out, 't');
                    } else if (c as u32) < 0x20 || (c as u32) == 0x7f {
                        let v = c as u32;
                        append_char(&mut self.out, '\\');
                        append_char(&mut self.out, 'x');
                        append_char(&mut self.out, hex_digit_of(v / 16));
                        append_char(&mut self.out, hex_digit_of(v % 16));
                    } else {
                        append_char(&mut self.out, c);
                    }
                    proof {
                        k = k + 1;
                        assert(self.out@ =~= start + seq!['"'] + escape(s@.take(k)));
                    }
                },
            }
        }
        proof {
            assert(s@.take(k) =~= s@);
        }
        append_char(&mut self.out, '"');
        append_char(&mut self.out, ' ');
    }
}

} // verus!
