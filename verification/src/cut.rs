//! Text measured, trimmed and cut by the bytes that it takes.
use crate::text::{byte_count, byte_len, chars_of, is_white, is_white_char, string_of};
use vstd::prelude::*;
use vstd::utf8::{decode_utf8, encode_scalar, encode_utf8, valid_utf8};

verus! {

/// The bytes that a character takes in UTF-8.
pub open spec fn char_bytes(c: char) -> nat {
    let u = c as u32;
    if u <= 0x7f {
        1
    } else if u <= 0x7ff {
        2
    } else if u <= 0xffff {
        3
    } else {
        4
    }
}

/// The bytes that a character takes.
pub fn char_size(c: char) -> (r: usize)
    ensures
        r == char_bytes(c),
{
    let u: u32 = c as u32;
    if u <= 0x7f {
        1
    } else if u <= 0x7ff {
        2
    } else if u <= 0xffff {
        3
    } else {
        4
    }
}

proof fn lemma_char_bytes(c: char)
    ensures
        encode_scalar(c as u32).len() == char_bytes(c),
{
}

/// One more character takes its bytes more.
pub proof fn lemma_push_bytes(s: Seq<char>, c: char)
    ensures
        byte_len(s.push(c)) == byte_len(s) + char_bytes(c),
    decreases s.len(),
{
    lemma_char_bytes(c);
    if s.len() == 0 {
        assert(s.push(c).drop_first() =~= Seq::empty());
        assert(encode_utf8(Seq::<char>::empty()).len() == 0);
    } else {
        lemma_push_bytes(s.drop_first(), c);
        assert(s.push(c).drop_first() =~= s.drop_first().push(c));
    }
}

/// Bytes of texts add up.
pub proof fn lemma_concat_bytes(a: Seq<char>, b: Seq<char>)
    ensures
        byte_len(a + b) == byte_len(a) + byte_len(b),
    decreases a.len(),
{
    if a.len() == 0 {
        assert(a + b =~= b);
        assert(encode_utf8(Seq::<char>::empty()).len() == 0);
        assert(a =~= Seq::<char>::empty());
    } else {
        lemma_concat_bytes(a.drop_first(), b);
        assert((a + b).drop_first() =~= a.drop_first() + b);
    }
}

/// Without the white space at its end.
pub open spec fn trimmed_end(s: Seq<char>) -> Seq<char>
    decreases s.len(),
{
    if s.len() > 0 && is_white(s.last()) {
        trimmed_end(s.drop_last())
    } else {
        s
    }
}

/// Without the white space at its start.
pub open spec fn trimmed_start(s: Seq<char>) -> Seq<char>
    decreases s.len(),
{
    if s.len() > 0 && is_white(s[0]) {
        trimmed_start(s.drop_first())
    } else {
        s
    }
}

/// A text without the white space at its end.
pub fn trim_end(s: &str) -> (r: String)
    ensures
        r@ == trimmed_end(s@),
{
    let mut chars: Vec<char> = chars_of(s);
    while chars.len() > 0 && is_white_char(chars[chars.len() - 1])
        invariant
            trimmed_end(chars@) == trimmed_end(s@),
        decreases chars@.len(),
    {
        let ghost before = chars@;
        chars.pop();
        assert(chars@ =~= before.drop_last());
    }
    string_of(&chars)
}

/// A text without the white space around it.
pub fn trim(s: &str) -> (r: String)
    ensures
        r@ == trimmed_end(trimmed_start(s@)),
{
    let chars: Vec<char> = chars_of(s);
    let mut i: usize = 0;
    assert(chars@.skip(0) =~= chars@);
    while i < chars.len() && is_white_char(chars[i])
        invariant
            i <= chars@.len(),
            trimmed_start(chars@.skip(i as int)) == trimmed_start(s@),
        decreases chars@.len() - i,
    {
        proof {
            assert(chars@.skip(i as int)[0] == chars@[i as int]);
            assert(chars@.skip(i as int).drop_first() =~= chars@.skip(i + 1));
        }
        i += 1;
    }
    let rest: String = rest_of(&chars, i);
    assert(i < chars@.len() ==> chars@.skip(i as int)[0] == chars@[i as int]);
    trim_end(rest.as_str())
}

/// The characters from a place on.
pub fn rest_of(chars: &Vec<char>, from: usize) -> (r: String)
    requires
        from <= chars@.len(),
    ensures
        r@ == chars@.skip(from as int),
{
    let mut out: Vec<char> = Vec::new();
    let mut i: usize = from;
    while i < chars.len()
        invariant
            from <= i <= chars@.len(),
            out@ == chars@.subrange(from as int, i as int),
        decreases chars@.len() - i,
    {
        out.push(chars[i]);
        proof {
            assert(chars@.subrange(from as int, i + 1) =~= chars@.subrange(
                from as int,
                i as int,
            ).push(chars@[i as int]));
        }
        i += 1;
    }
    assert(out@ =~= chars@.skip(from as int));
    string_of(&out)
}

/// A text without `/` at its end.
pub open spec fn unslashed(s: Seq<char>) -> Seq<char>
    decreases s.len(),
{
    if s.len() > 0 && s.last() == '/' {
        unslashed(s.drop_last())
    } else {
        s
    }
}

/// A text without `/` at its end.
pub fn trim_slashes(s: &str) -> (r: String)
    ensures
        r@ == unslashed(s@),
{
    let mut chars: Vec<char> = chars_of(s);
    while chars.len() > 0 && chars[chars.len() - 1] == '/'
        invariant
            unslashed(chars@) == unslashed(s@),
        decreases chars@.len(),
    {
        let ghost before = chars@;
        chars.pop();
        assert(chars@ =~= before.drop_last());
    }
    string_of(&chars)
}

/// How many characters from the start take at most `limit` bytes, where `n` do.
pub open spec fn clip_len(s: Seq<char>, limit: nat, n: nat) -> nat
    decreases s.len() - n,
{
    if n < s.len() && byte_len(s.take((n + 1) as int)) <= limit {
        clip_len(s, limit, n + 1)
    } else {
        n
    }
}

/// The start of a text, as much of it as takes at most `limit` bytes.
pub open spec fn clipped(s: Seq<char>, limit: nat) -> Seq<char> {
    s.take(clip_len(s, limit, 0) as int)
}

/// The start of a text, as much of it as takes at most `limit` bytes.
pub fn clip(s: &str, limit: usize) -> (r: String)
    ensures
        r@ == clipped(s@, limit as nat),
{
    let chars: Vec<char> = chars_of(s);
    let mut out: String = String::new();
    let mut used: usize = 0;
    let mut i: usize = 0;
    proof {
        assert(s@.take(0) =~= Seq::empty());
        assert(encode_utf8(Seq::<char>::empty()).len() == 0);
    }
    while i < chars.len()
        invariant
            chars@ == s@,
            i <= chars@.len(),
            out@ == s@.take(i as int),
            used == byte_len(s@.take(i as int)),
            used <= limit,
            clip_len(s@, limit as nat, 0) == clip_len(s@, limit as nat, i as nat),
        decreases chars@.len() - i,
    {
        let c: char = chars[i];
        let size: usize = char_size(c);
        proof {
            lemma_push_bytes(s@.take(i as int), c);
            assert(s@.take(i + 1) =~= s@.take(i as int).push(c));
        }
        if size > limit - used {
            return out;
        }
        out.push(c);
        used += size;
        i += 1;
    }
    out
}

/// The finished parts and the unfinished one after the first `n` characters. A part is finished
/// where the next character would take it over the limit.
pub open spec fn split_state(s: Seq<char>, limit: nat, n: nat) -> (Seq<Seq<char>>, Seq<char>)
    decreases n,
{
    if n == 0 {
        (Seq::empty(), Seq::empty())
    } else {
        let (done, part) = split_state(s, limit, (n - 1) as nat);
        let c = s[n - 1];
        if byte_len(part) + char_bytes(c) > limit && part.len() > 0 {
            (done.push(part), seq![c])
        } else {
            (done, part.push(c))
        }
    }
}

/// The parts of a text.
pub open spec fn parts_of(s: Seq<char>, limit: nat) -> Seq<Seq<char>> {
    let (done, part) = split_state(s, limit, s.len());
    if part.len() > 0 {
        done.push(part)
    } else {
        done
    }
}

/// Splits a text on character boundaries into parts of at most `limit` bytes.
pub fn split(s: &str, limit: usize) -> (r: Vec<String>)
    ensures
        r.deep_view() == parts_of(s@, limit as nat),
{
    let chars: Vec<char> = chars_of(s);
    let mut done: Vec<String> = Vec::new();
    let mut part: String = String::new();
    let mut i: usize = 0;
    assert(done.deep_view() =~= Seq::empty());
    while i < chars.len()
        invariant
            chars@ == s@,
            i <= chars@.len(),
            (done.deep_view(), part@) == split_state(s@, limit as nat, i as nat),
        decreases chars@.len() - i,
    {
        let c: char = chars[i];
        let size: usize = char_size(c);
        let used: usize = byte_count(part.as_str());
        let full: bool = used > limit || size > limit - used;
        if full && !part.as_str().is_empty() {
            let ghost before = done.deep_view();
            let mut next: String = String::new();
            next.push(c);
            assert(next@ =~= seq![c]);
            let ghost whole = part@;
            done.push(part);
            part = next;
            assert(done.deep_view() =~= before.push(whole));
        } else {
            part.push(c);
        }
        i += 1;
    }
    if !part.as_str().is_empty() {
        let ghost before = done.deep_view();
        let ghost whole = part@;
        done.push(part);
        assert(done.deep_view() =~= before.push(whole));
    }
    done
}

/// Texts one after the other.
pub open spec fn joined(parts: Seq<Seq<char>>) -> Seq<char>
    decreases parts.len(),
{
    if parts.len() == 0 {
        Seq::empty()
    } else {
        joined(parts.drop_last()) + parts.last()
    }
}

proof fn lemma_split_state(s: Seq<char>, limit: nat, n: nat)
    requires
        n <= s.len(),
    ensures
        ({
            let (done, part) = split_state(s, limit, n);
            &&& joined(done) + part == s.take(n as int)
            &&& n > 0 ==> part.len() > 0
            &&& byte_len(part) <= limit || part.len() <= 1
            &&& forall|i: int|
                0 <= i < done.len() ==> byte_len(#[trigger] done[i]) <= limit || done[i].len() == 1
        }),
    decreases n,
{
    if n == 0 {
        assert(joined(Seq::empty()) + Seq::<char>::empty() =~= s.take(0));
        assert(encode_utf8(Seq::<char>::empty()).len() == 0);
    } else {
        lemma_split_state(s, limit, (n - 1) as nat);
        let (done, part) = split_state(s, limit, (n - 1) as nat);
        let (now, rest) = split_state(s, limit, n);
        let c = s[n - 1];
        lemma_push_bytes(part, c);
        assert(s.take(n as int) =~= s.take(n - 1).push(c));
        if byte_len(part) + char_bytes(c) > limit && part.len() > 0 {
            assert(now.drop_last() =~= done);
            assert(joined(now) == joined(done) + part);
            assert(joined(now) + rest =~= s.take(n as int));
            assert forall|i: int| 0 <= i < now.len() implies byte_len(#[trigger] now[i]) <= limit
                || now[i].len() == 1 by {
                if i < done.len() {
                    assert(now[i] == done[i]);
                }
            }
        } else {
            assert(joined(now) + rest =~= s.take(n as int));
            if part.len() == 0 {
                assert(rest.len() == 1);
            }
        }
    }
}

/// The parts of a text are the text again, and each takes at most `limit` bytes or is a single
/// character.
pub proof fn lemma_parts_join(s: Seq<char>, limit: nat)
    ensures
        joined(parts_of(s, limit)) == s,
        forall|i: int|
            0 <= i < parts_of(s, limit).len() ==> byte_len(#[trigger] parts_of(s, limit)[i])
                <= limit || parts_of(s, limit)[i].len() == 1,
{
    lemma_split_state(s, limit, s.len());
    let (done, part) = split_state(s, limit, s.len());
    let parts = parts_of(s, limit);
    assert(s.take(s.len() as int) =~= s);
    if part.len() > 0 {
        assert(parts.drop_last() =~= done);
        assert forall|i: int| 0 <= i < parts.len() implies byte_len(#[trigger] parts[i]) <= limit
            || parts[i].len() == 1 by {
            if i < done.len() {
                assert(parts[i] == done[i]);
            }
        }
    } else {
        assert(joined(done) + part =~= joined(done));
    }
}

/// Calls `std::str::from_utf8`: a text exactly where the bytes are valid UTF-8, and then the one
/// that they encode.
#[verifier::external_body]
fn read_utf8(bytes: &[u8]) -> (r: Option<&str>)
    ensures
        r is Some == valid_utf8(bytes@),
        r is Some ==> r->0@ == decode_utf8(bytes@),
{
    std::str::from_utf8(bytes).ok()
}

/// The text that bytes encode.
pub fn decode(bytes: &[u8]) -> (r: Option<String>)
    ensures
        r is Some == valid_utf8(bytes@),
        r is Some ==> r->0@ == decode_utf8(bytes@),
{
    match read_utf8(bytes) {
        Some(s) => Some(s.to_owned()),
        None => None,
    }
}

/// A text without the white space at its end is its start up to the last character that is no white
/// space.
pub proof fn lemma_trimmed_end(s: Seq<char>)
    ensures
        trimmed_end(s).len() <= s.len(),
        trimmed_end(s) == s.take(trimmed_end(s).len() as int),
        trimmed_end(s).len() > 0 ==> !is_white(trimmed_end(s).last()),
        forall|i: int| trimmed_end(s).len() <= i < s.len() ==> is_white(#[trigger] s[i]),
    decreases s.len(),
{
    if s.len() > 0 && is_white(s.last()) {
        let rest = s.drop_last();
        lemma_trimmed_end(rest);
        assert(rest.take(trimmed_end(rest).len() as int) =~= s.take(
            trimmed_end(rest).len() as int,
        ));
        assert forall|i: int| trimmed_end(s).len() <= i < s.len() implies is_white(
            #[trigger] s[i],
        ) by {
            if i < rest.len() {
                assert(rest[i] == s[i]);
            }
        }
    } else {
        assert(s.take(s.len() as int) =~= s);
    }
}

/// A text without the white space at its start is its end from the first character that is no white
/// space.
pub proof fn lemma_trimmed_start(s: Seq<char>)
    ensures
        trimmed_start(s).len() <= s.len(),
        trimmed_start(s) == s.skip(s.len() - trimmed_start(s).len()),
        trimmed_start(s).len() > 0 ==> !is_white(trimmed_start(s)[0]),
        forall|i: int|
            0 <= i < s.len() - trimmed_start(s).len() ==> is_white(#[trigger] s[i]),
    decreases s.len(),
{
    if s.len() > 0 && is_white(s[0]) {
        let rest = s.drop_first();
        lemma_trimmed_start(rest);
        assert(rest.skip(rest.len() - trimmed_start(rest).len()) =~= s.skip(
            s.len() - trimmed_start(rest).len(),
        ));
        assert forall|i: int| 0 <= i < s.len() - trimmed_start(s).len() implies is_white(
            #[trigger] s[i],
        ) by {
            if i > 0 {
                assert(rest[i - 1] == s[i]);
            }
        }
    } else {
        assert(s.skip(0) =~= s);
    }
}

/// A text without slashes at its end is its start up to the last character that is no slash.
pub proof fn lemma_unslashed(s: Seq<char>)
    ensures
        unslashed(s).len() <= s.len(),
        unslashed(s) == s.take(unslashed(s).len() as int),
        unslashed(s).len() > 0 ==> unslashed(s).last() != '/',
        forall|i: int| unslashed(s).len() <= i < s.len() ==> #[trigger] s[i] == '/',
    decreases s.len(),
{
    if s.len() > 0 && s.last() == '/' {
        let rest = s.drop_last();
        lemma_unslashed(rest);
        assert(rest.take(unslashed(rest).len() as int) =~= s.take(unslashed(rest).len() as int));
        assert forall|i: int| unslashed(s).len() <= i < s.len() implies #[trigger] s[i]
            == '/' by {
            if i < rest.len() {
                assert(rest[i] == s[i]);
            }
        }
    } else {
        assert(s.take(s.len() as int) =~= s);
    }
}

proof fn lemma_clip_len(s: Seq<char>, limit: nat, n: nat)
    requires
        n <= s.len(),
        byte_len(s.take(n as int)) <= limit,
    ensures
        n <= clip_len(s, limit, n) <= s.len(),
        byte_len(s.take(clip_len(s, limit, n) as int)) <= limit,
        clip_len(s, limit, n) < s.len() ==> byte_len(
            s.take(clip_len(s, limit, n) as int + 1),
        ) > limit,
    decreases s.len() - n,
{
    if n < s.len() && byte_len(s.take((n + 1) as int)) <= limit {
        lemma_clip_len(s, limit, n + 1);
    }
}

/// What is clipped of a text is the longest start of it that takes no more bytes than it may.
pub proof fn lemma_clipped(s: Seq<char>, limit: nat)
    ensures
        clipped(s, limit).len() <= s.len(),
        clipped(s, limit) == s.take(clipped(s, limit).len() as int),
        byte_len(clipped(s, limit)) <= limit,
        clipped(s, limit).len() < s.len() ==> byte_len(
            s.take(clipped(s, limit).len() as int + 1),
        ) > limit,
{
    assert(s.take(0) =~= Seq::<char>::empty());
    assert(encode_utf8(Seq::<char>::empty()).len() == 0);
    lemma_clip_len(s, limit, 0);
}

} // verus!
