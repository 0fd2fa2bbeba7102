//! Text primitives: comparison, ordering, blank checks and ordered text collections.
use vstd::prelude::*;
use vstd::string::*;
use vstd::utf8::*;

verus! {

/// The views of a sequence of strings.
pub open spec fn texts(items: Seq<String>) -> Seq<Seq<char>> {
    Seq::new(items.len(), |i: int| items[i]@)
}

/// The number of bytes that a text takes in UTF-8.
pub open spec fn byte_len(s: Seq<char>) -> nat {
    encode_utf8(s).len()
}

/// The code points with the Unicode property `White_Space`.
pub open spec fn is_white(c: char) -> bool {
    let u = c as u32;
    ||| 0x9 <= u <= 0xd
    ||| u == 0x20
    ||| u == 0x85
    ||| u == 0xa0
    ||| u == 0x1680
    ||| 0x2000 <= u <= 0x200a
    ||| u == 0x2028
    ||| u == 0x2029
    ||| u == 0x202f
    ||| u == 0x205f
    ||| u == 0x3000
}

/// A text is blank when it holds nothing but white space.
pub open spec fn blank(s: Seq<char>) -> bool {
    forall|i: int| 0 <= i < s.len() ==> is_white(#[trigger] s[i])
}

/// Some stretch of `s` is `part`.
pub open spec fn has_part(s: Seq<char>, part: Seq<char>) -> bool {
    exists|i: int| #[trigger] part_at(s, part, i)
}

/// `part` stands in `s` at position `i`.
pub open spec fn part_at(s: Seq<char>, part: Seq<char>, i: int) -> bool {
    &&& 0 <= i
    &&& i + part.len() <= s.len()
    &&& s.subrange(i, i + part.len()) == part
}

/// `s` begins with `prefix`.
pub open spec fn begins_with(s: Seq<char>, prefix: Seq<char>) -> bool {
    &&& prefix.len() <= s.len()
    &&& s.subrange(0, prefix.len() as int) == prefix
}

/// Whether a character is white space.
pub fn is_white_char(c: char) -> (r: bool)
    ensures
        r == is_white(c),
{
    let u: u32 = c as u32;
    (0x9 <= u && u <= 0xd) || u == 0x20 || u == 0x85 || u == 0xa0 || u == 0x1680 || (0x2000 <= u
        && u <= 0x200a) || u == 0x2028 || u == 0x2029 || u == 0x202f || u == 0x205f || u == 0x3000
}

/// Whether nothing but white space is in `s`.
pub fn is_blank(s: &str) -> (r: bool)
    ensures
        r == blank(s@),
{
    for c in it: s.chars()
        invariant
            it.seq() == s@,
            forall|i: int| 0 <= i < it.index() ==> is_white(#[trigger] s@[i]),
    {
        assert(c == s@[it.index() as int]);
        if !is_white_char(c) {
            return false;
        }
    }
    true
}

/// The number of bytes of a text in UTF-8.
pub fn byte_count(s: &str) -> (r: usize)
    ensures
        r == byte_len(s@),
{
    s.as_bytes().len()
}

/// The characters of a text.
pub fn chars_of(s: &str) -> (r: Vec<char>)
    ensures
        r@ == s@,
{
    let mut out: Vec<char> = Vec::new();
    for c in it: s.chars()
        invariant
            it.seq() == s@,
            out@.len() == it.index(),
            forall|i: int| 0 <= i < it.index() ==> out@[i] == s@[i],
    {
        out.push(c);
    }
    out
}

/// `String::push` of std appends one character.
pub assume_specification[ std::string::String::push ](s: &mut std::string::String, ch: char)
    ensures
        final(s)@ == old(s)@.push(ch),
;

/// The string of a list of characters.
pub fn string_of(chars: &Vec<char>) -> (r: String)
    ensures
        r@ == chars@,
{
    let mut out: String = String::new();
    let mut i: usize = 0;
    while i < chars.len()
        invariant
            i <= chars@.len(),
            out@ == chars@.take(i as int),
        decreases chars@.len() - i,
    {
        out.push(chars[i]);
        proof {
            assert(chars@.take(i + 1) =~= chars@.take(i as int).push(chars@[i as int]));
        }
        i += 1;
    }
    assert(chars@.take(chars@.len() as int) =~= chars@);
    out
}

/// Whether two texts are the same.
pub fn same_text(a: &str, b: &str) -> (r: bool)
    ensures
        r == (a@ == b@),
{
    let x: &[u8] = a.as_bytes();
    let y: &[u8] = b.as_bytes();
    if x.len() != y.len() {
        return false;
    }
    let mut i: usize = 0;
    while i < x.len()
        invariant
            x@ == encode_utf8(a@),
            y@ == encode_utf8(b@),
            x@.len() == y@.len(),
            i <= x@.len(),
            forall|j: int| 0 <= j < i ==> x@[j] == y@[j],
        decreases x@.len() - i,
    {
        if x[i] != y[i] {
            return false;
        }
        i += 1;
    }
    proof {
        assert(x@ =~= y@);
        encode_utf8_decode_utf8(a@);
        encode_utf8_decode_utf8(b@);
    }
    true
}

/// Whether `part` occurs in `s`.
pub fn contains_text(s: &str, part: &str) -> (r: bool)
    ensures
        r == has_part(s@, part@),
{
    let hay: Vec<char> = chars_of(s);
    let pin: Vec<char> = chars_of(part);
    if pin.len() > hay.len() {
        return false;
    }
    let last: usize = hay.len() - pin.len();
    let mut i: usize = 0;
    while i <= last
        invariant
            hay@ == s@,
            pin@ == part@,
            last == hay@.len() - pin@.len(),
            hay@.len() <= usize::MAX,
            i <= last + 1,
            forall|k: int| 0 <= k < i ==> !part_at(s@, part@, k),
        decreases last + 1 - i,
    {
        let mut j: usize = 0;
        while j < pin.len() && hay[i + j] == pin[j]
            invariant
                hay@ == s@,
                pin@ == part@,
                i <= last,
                last == hay@.len() - pin@.len(),
                j <= pin@.len(),
                hay@.len() <= usize::MAX,
                forall|k: int| 0 <= k < j ==> hay@[i + k] == pin@[k],
            decreases pin@.len() - j,
        {
            j += 1;
        }
        if j == pin.len() {
            assert(s@.subrange(i as int, i + part@.len()) =~= part@);
            assert(part_at(s@, part@, i as int));
            return true;
        }
        proof {
            assert(s@.subrange(i as int, i + part@.len())[j as int] != part@[j as int]);
        }
        if i == last {
            return false;
        }
        i += 1;
    }
    false
}

/// Whether `s` begins with `prefix`.
pub fn starts_with_text(s: &str, prefix: &str) -> (r: bool)
    ensures
        r == begins_with(s@, prefix@),
{
    let hay: Vec<char> = chars_of(s);
    let pin: Vec<char> = chars_of(prefix);
    if pin.len() > hay.len() {
        return false;
    }
    let mut j: usize = 0;
    while j < pin.len()
        invariant
            hay@ == s@,
            pin@ == prefix@,
            pin@.len() <= hay@.len(),
            j <= pin@.len(),
            forall|k: int| 0 <= k < j ==> hay@[k] == pin@[k],
        decreases pin@.len() - j,
    {
        if hay[j] != pin[j] {
            assert(s@.subrange(0, prefix@.len() as int)[j as int] != prefix@[j as int]);
            return false;
        }
        j += 1;
    }
    assert(s@.subrange(0, prefix@.len() as int) =~= prefix@);
    true
}

/// Whether a list of strings holds `s`.
pub fn has_text(items: &Vec<String>, s: &str) -> (r: bool)
    ensures
        r == texts(items@).contains(s@),
{
    let mut i: usize = 0;
    while i < items.len()
        invariant
            i <= items@.len(),
            forall|j: int| 0 <= j < i ==> #[trigger] texts(items@)[j] != s@,
        decreases items@.len() - i,
    {
        if same_text(items[i].as_str(), s) {
            assert(texts(items@)[i as int] == s@);
            return true;
        }
        i += 1;
    }
    false
}

/// The concatenation of two texts.
pub fn join(a: &str, b: &str) -> (r: String)
    ensures
        r@ == a@ + b@,
{
    let mut out: String = a.to_owned();
    out.append(b);
    out
}

/// The concatenation of three texts.
pub fn join3(a: &str, b: &str, c: &str) -> (r: String)
    ensures
        r@ == a@ + b@ + c@,
{
    let mut out: String = a.to_owned();
    out.append(b);
    out.append(c);
    out
}

/// A number in decimal digits.
pub open spec fn decimal(n: nat) -> Seq<char>
    decreases n,
{
    let digit = (n % 10 + 0x30) as char;
    if n < 10 {
        seq![digit]
    } else {
        decimal(n / 10).push(digit)
    }
}

/// The decimal digits of a number.
pub fn decimal_text(n: usize) -> (r: String)
    ensures
        r@ == decimal(n as nat),
    decreases n,
{
    let digit: char = ((n % 10) as u8 + 0x30) as char;
    let mut out: String = String::new();
    if n >= 10 {
        out = decimal_text(n / 10);
    }
    out.push(digit);
    proof {
        if n < 10 {
            assert(out@ =~= decimal(n as nat));
        }
    }
    out
}

/// Byte strings in lexicographic order, strictly.
pub open spec fn bytes_lt(x: Seq<u8>, y: Seq<u8>) -> bool
    decreases x.len(),
{
    if y.len() == 0 {
        false
    } else if x.len() == 0 {
        true
    } else if x[0] != y[0] {
        x[0] < y[0]
    } else {
        bytes_lt(x.drop_first(), y.drop_first())
    }
}

/// Texts are ordered by their UTF-8 bytes.
pub open spec fn text_lt(a: Seq<char>, b: Seq<char>) -> bool {
    bytes_lt(encode_utf8(a), encode_utf8(b))
}

proof fn lemma_bytes_irreflexive(x: Seq<u8>)
    ensures
        !bytes_lt(x, x),
    decreases x.len(),
{
    if x.len() > 0 {
        lemma_bytes_irreflexive(x.drop_first());
    }
}

proof fn lemma_bytes_transitive(x: Seq<u8>, y: Seq<u8>, z: Seq<u8>)
    requires
        bytes_lt(x, y),
        bytes_lt(y, z),
    ensures
        bytes_lt(x, z),
    decreases x.len(),
{
    if x.len() > 0 && x[0] == y[0] && y[0] == z[0] {
        lemma_bytes_transitive(x.drop_first(), y.drop_first(), z.drop_first());
    }
}

proof fn lemma_bytes_total(x: Seq<u8>, y: Seq<u8>)
    ensures
        bytes_lt(x, y) || bytes_lt(y, x) || x == y,
    decreases x.len(),
{
    if x.len() == 0 || y.len() == 0 {
        if x.len() == y.len() {
            assert(x =~= y);
        }
    } else if x[0] == y[0] {
        lemma_bytes_total(x.drop_first(), y.drop_first());
        if x.drop_first() == y.drop_first() {
            assert(x =~= seq![x[0]] + x.drop_first());
            assert(y =~= seq![y[0]] + y.drop_first());
        }
    }
}

/// No text comes before itself.
pub proof fn lemma_text_irreflexive(a: Seq<char>)
    ensures
        !text_lt(a, a),
{
    lemma_bytes_irreflexive(encode_utf8(a));
}

/// The order of texts is transitive.
pub proof fn lemma_text_transitive(a: Seq<char>, b: Seq<char>, c: Seq<char>)
    requires
        text_lt(a, b),
        text_lt(b, c),
    ensures
        text_lt(a, c),
{
    lemma_bytes_transitive(encode_utf8(a), encode_utf8(b), encode_utf8(c));
}

/// Of two different texts one comes first.
pub proof fn lemma_text_total(a: Seq<char>, b: Seq<char>)
    ensures
        text_lt(a, b) || text_lt(b, a) || a == b,
{
    lemma_bytes_total(encode_utf8(a), encode_utf8(b));
    encode_utf8_decode_utf8(a);
    encode_utf8_decode_utf8(b);
}

/// Whether `a` comes before `b`.
pub fn text_less(a: &str, b: &str) -> (r: bool)
    ensures
        r == text_lt(a@, b@),
{
    let x: &[u8] = a.as_bytes();
    let y: &[u8] = b.as_bytes();
    let mut i: usize = 0;
    proof {
        assert(x@.skip(0) =~= x@);
        assert(y@.skip(0) =~= y@);
    }
    while i < x.len() && i < y.len()
        invariant
            x@ == encode_utf8(a@),
            y@ == encode_utf8(b@),
            i <= x@.len(),
            i <= y@.len(),
            bytes_lt(x@, y@) == bytes_lt(x@.skip(i as int), y@.skip(i as int)),
        decreases x@.len() - i,
    {
        if x[i] != y[i] {
            proof {
                assert(x@.skip(i as int)[0] == x@[i as int]);
                assert(y@.skip(i as int)[0] == y@[i as int]);
            }
            return x[i] < y[i];
        }
        proof {
            assert(x@.skip(i as int).drop_first() =~= x@.skip(i + 1));
            assert(y@.skip(i as int).drop_first() =~= y@.skip(i + 1));
        }
        i += 1;
    }
    i < y.len()
}

/// Strictly ascending in the order of texts.
pub open spec fn ascending(items: Seq<Seq<char>>) -> bool {
    forall|i: int, j: int| 0 <= i < j < items.len() ==> text_lt(#[trigger] items[i], #[trigger] items[j])
}

/// What is strictly ascending holds nothing twice.
pub proof fn lemma_ascending_distinct(items: Seq<Seq<char>>)
    requires
        ascending(items),
    ensures
        items.no_duplicates(),
{
    assert forall|i: int, j: int|
        0 <= i < items.len() && 0 <= j < items.len() && i != j implies items[i] != items[j] by {
        lemma_text_irreflexive(items[i]);
        if i < j {
            assert(text_lt(items[i], items[j]));
        } else {
            assert(text_lt(items[j], items[i]));
        }
    }
}

/// The members of a set in ascending order.
pub open spec fn list_of(set: Set<Seq<char>>) -> Seq<Seq<char>> {
    choose|list: Seq<Seq<char>>| lists(set, list)
}

/// `list` holds the members of a set in ascending order.
pub open spec fn lists(set: Set<Seq<char>>, list: Seq<Seq<char>>) -> bool {
    &&& ascending(list)
    &&& forall|t: Seq<char>| set.contains(t) <==> list.contains(t)
}

/// A set has one ascending list.
pub proof fn lemma_list_unique(set: Set<Seq<char>>, list: Seq<Seq<char>>)
    requires
        lists(set, list),
    ensures
        list_of(set) == list,
{
    lemma_same_list(set, list_of(set), list);
}

proof fn lemma_same_list(set: Set<Seq<char>>, a: Seq<Seq<char>>, b: Seq<Seq<char>>)
    requires
        lists(set, a),
        lists(set, b),
    ensures
        a == b,
    decreases a.len(),
{
    if a.len() == 0 {
        if b.len() > 0 {
            assert(b.contains(b[0]));
            assert(a.contains(b[0]));
        }
        assert(a =~= b);
    } else {
        assert(a.contains(a.last()));
        assert(b.contains(a.last()));
        let i = choose|i: int| 0 <= i < b.len() && b[i] == a.last();
        assert(b.contains(b.last()));
        assert(a.contains(b.last()));
        let j = choose|j: int| 0 <= j < a.len() && a[j] == b.last();
        if i < b.len() - 1 {
            assert(text_lt(b[i], b.last()));
            if j < a.len() - 1 {
                assert(text_lt(a[j], a.last()));
                lemma_text_transitive(a.last(), b.last(), a.last());
            }
            lemma_text_irreflexive(a.last());
        }
        let last = a.last();
        let rest = set.remove(last);
        let x = a.drop_last();
        let y = b.drop_last();
        assert(lists(rest, x)) by {
            lemma_without_last(set, a);
        }
        assert(lists(rest, y)) by {
            lemma_without_last(set, b);
        }
        lemma_same_list(rest, x, y);
        assert(a =~= x.push(last));
        assert(b =~= y.push(last));
    }
}

proof fn lemma_without_last(set: Set<Seq<char>>, list: Seq<Seq<char>>)
    requires
        lists(set, list),
        list.len() > 0,
    ensures
        lists(set.remove(list.last()), list.drop_last()),
{
    let last = list.last();
    let rest = list.drop_last();
    assert forall|t: Seq<char>| set.remove(last).contains(t) <==> rest.contains(t) by {
        if rest.contains(t) {
            let i = choose|i: int| 0 <= i < rest.len() && rest[i] == t;
            assert(list[i] == t);
            assert(text_lt(list[i], list[list.len() - 1]));
            lemma_text_irreflexive(t);
            assert(list.contains(t));
        }
        if set.remove(last).contains(t) {
            let i = choose|i: int| 0 <= i < list.len() && list[i] == t;
            assert(rest[i] == t);
        }
    }
}

/// The keys of a list of entries.
pub open spec fn keys_of<V>(entries: Seq<(String, V)>) -> Seq<Seq<char>> {
    Seq::new(entries.len(), |i: int| entries[i].0@)
}

/// The values of a list of entries.
pub open spec fn values_of<V>(entries: Seq<(String, V)>) -> Seq<V> {
    Seq::new(entries.len(), |i: int| entries[i].1)
}

/// Where a key stands, or would be put, among ascending ones.
fn place<V>(entries: &Vec<(String, V)>, s: &str) -> (r: (bool, usize))
    requires
        ascending(keys_of(entries@)),
    ensures
        r.1 <= entries@.len(),
        r.0 == keys_of(entries@).contains(s@),
        r.0 ==> r.1 < entries@.len() && entries@[r.1 as int].0@ == s@,
        forall|i: int| 0 <= i < r.1 ==> text_lt(#[trigger] keys_of(entries@)[i], s@),
        !r.0 ==> forall|i: int|
            r.1 <= i < entries@.len() ==> text_lt(s@, #[trigger] keys_of(entries@)[i]),
{
    let ghost keys = keys_of(entries@);
    let mut i: usize = 0;
    while i < entries.len()
        invariant
            i <= entries@.len(),
            keys == keys_of(entries@),
            ascending(keys),
            forall|j: int| 0 <= j < i ==> text_lt(#[trigger] keys[j], s@),
        decreases entries@.len() - i,
    {
        let item: &str = entries[i].0.as_str();
        if same_text(item, s) {
            assert(keys[i as int] == s@);
            return (true, i);
        }
        assert(keys[i as int] == item@);
        if !text_less(item, s) {
            proof {
                lemma_text_total(item@, s@);
                assert forall|k: int| i <= k < entries@.len() implies text_lt(
                    s@,
                    #[trigger] keys[k],
                ) by {
                    if k > i {
                        assert(text_lt(keys[i as int], keys[k]));
                        lemma_text_transitive(s@, keys[i as int], keys[k]);
                    }
                }
                lemma_text_irreflexive(s@);
            }
            return (false, i);
        }
        i += 1;
    }
    proof {
        lemma_text_irreflexive(s@);
    }
    (false, i)
}

/// A map from strings, kept in ascending order of its keys.
#[derive(Debug)]
pub struct TextMap<V> {
    entries: Vec<(String, V)>,
}

impl<V> TextMap<V> {
    #[verifier::type_invariant]
    spec fn kept(self) -> bool {
        ascending(keys_of(self.entries@))
    }

    /// The keys in ascending order.
    pub closed spec fn keys(&self) -> Seq<Seq<char>> {
        keys_of(self.entries@)
    }

    /// The values in the order of their keys.
    pub closed spec fn values(&self) -> Seq<V> {
        values_of(self.entries@)
    }

    /// Whether there is a value for `s`.
    pub open spec fn has(&self, s: Seq<char>) -> bool {
        self.keys().contains(s)
    }

    /// The set of the keys.
    pub open spec fn key_set(&self) -> Set<Seq<char>> {
        Set::new(|k: Seq<char>| self.has(k))
    }

    /// The value for `s`.
    pub open spec fn spec_get(&self, s: Seq<char>) -> Option<V> {
        if self.has(s) {
            Some(self.values()[self.keys().index_of(s)])
        } else {
            None
        }
    }

    /// The map with no entry.
    pub fn new() -> (r: Self)
        ensures
            r.keys() == Seq::<Seq<char>>::empty(),
            r.values() == Seq::<V>::empty(),
    {
        TextMap { entries: Vec::new() }
    }

    /// How many entries there are; each value belongs to the key at its place, and the keys are
    /// strictly ascending.
    pub fn len(&self) -> (r: usize)
        ensures
            r == self.keys().len(),
            r == self.values().len(),
            r == self.key_set().len(),
            self.key_set().finite(),
            ascending(self.keys()),
            self.keys().no_duplicates(),
            forall|i: int|
                0 <= i < self.keys().len() ==> self.spec_get(#[trigger] self.keys()[i]) == Some(
                    self.values()[i],
                ),
    {
        proof {
            use_type_invariant(self);
            lemma_ascending_distinct(self.keys());
            self.keys().unique_seq_to_set();
            assert(self.keys().to_set() =~= self.key_set());
            assert forall|i: int| 0 <= i < self.keys().len() implies self.spec_get(
                #[trigger] self.keys()[i],
            ) == Some(self.values()[i]) by {
                let k = self.keys().index_of(self.keys()[i]);
                assert(self.keys().contains(self.keys()[i]));
                assert(self.keys()[k] == self.keys()[i]);
            }
        }
        self.entries.len()
    }

    pub fn is_empty(&self) -> (r: bool)
        ensures
            r == (self.keys().len() == 0),
    {
        self.entries.len() == 0
    }

    /// The key at a position of the ascending list.
    pub fn key_at(&self, i: usize) -> (r: &String)
        requires
            i < self.keys().len(),
        ensures
            r@ == self.keys()[i as int],
    {
        &self.entries[i].0
    }

    /// The value at a position of the ascending list.
    pub fn value_at(&self, i: usize) -> (r: &V)
        requires
            i < self.keys().len(),
        ensures
            *r == self.values()[i as int],
    {
        &self.entries[i].1
    }

    pub fn contains_key(&self, s: &str) -> (r: bool)
        ensures
            r == self.has(s@),
    {
        proof {
            use_type_invariant(self);
        }
        place(&self.entries, s).0
    }

    pub fn get(&self, s: &str) -> (r: Option<&V>)
        ensures
            r is Some == self.has(s@),
            r is Some ==> self.spec_get(s@) == Some(*r->0),
            r is None ==> self.spec_get(s@) is None,
    {
        proof {
            use_type_invariant(self);
        }
        let (found, at) = place(&self.entries, s);
        if found {
            proof {
                lemma_ascending_distinct(self.keys());
                assert(self.keys()[at as int] == s@);
                assert(self.keys().index_of(s@) == at);
            }
            Some(&self.entries[at].1)
        } else {
            None
        }
    }

    /// Puts a value for a key; hands back the value that it replaces.
    pub fn insert(&mut self, s: String, value: V) -> (r: Option<V>)
        ensures
            r == old(self).spec_get(s@),
            final(self).spec_get(s@) == Some(value),
            forall|t: Seq<char>| t != s@ ==> final(self).spec_get(t) == old(self).spec_get(t),
            forall|t: Seq<char>| final(self).has(t) <==> old(self).has(t) || t == s@,
            final(self).keys().len() == old(self).keys().len() + (if r is None {
                1int
            } else {
                0int
            }),
            r is Some ==> final(self).keys() == old(self).keys(),
    {
        proof {
            use_type_invariant(&*self);
            lemma_ascending_distinct(self.keys());
        }
        let (found, at) = place(&self.entries, s.as_str());
        let ghost word = s@;
        let ghost before = *self;
        let ghost b = self.keys();
        let mut entries: Vec<(String, V)> = Vec::new();
        std::mem::swap(&mut entries, &mut self.entries);
        let mut replaced: Option<V> = None;
        if found {
            let (name, old_value) = entries.remove(at);
            entries.insert(at, (name, value));
            replaced = Some(old_value);
            proof {
                assert(b[at as int] == word);
                assert(b.index_of(word) == at);
                assert(keys_of(entries@) =~= b);
            }
        } else {
            entries.insert(at, (s, value));
            proof {
                let after = keys_of(entries@);
                assert forall|i: int, j: int| 0 <= i < j < after.len() implies text_lt(
                    #[trigger] after[i],
                    #[trigger] after[j],
                ) by {
                    let p = if i < at { i } else { i - 1 };
                    let q = if j < at { j } else { j - 1 };
                    if i != at && j != at {
                        assert(after[i] == b[p] && after[j] == b[q]);
                    } else if i == at {
                        assert(after[j] == b[q]);
                    } else {
                        assert(after[i] == b[p]);
                    }
                }
            }
        }
        self.entries = entries;
        proof {
            let after = self.keys();
            lemma_ascending_distinct(after);
            assert forall|t: Seq<char>| t != word implies self.spec_get(t) == before.spec_get(t)
                && (self.has(t) <==> before.has(t)) by {
                if !found {
                    if b.contains(t) {
                        let k = b.index_of(t);
                        let m = if k < at { k } else { k + 1 };
                        assert(after[m] == t);
                        assert(after.index_of(t) == m);
                    }
                    if after.contains(t) {
                        let k = after.index_of(t);
                        let m = if k < at { k } else { k - 1 };
                        assert(b[m] == t);
                    }
                }
            }
            assert(after[at as int] == word);
            assert(after.index_of(word) == at);
        }
        replaced
    }
}

impl<V: Clone> Clone for TextMap<V> {
    fn clone(&self) -> (r: Self)
        ensures
            r.keys() == self.keys(),
            r.values().len() == self.values().len(),
            forall|i: int|
                0 <= i < self.values().len() ==> cloned(
                    #[trigger] self.values()[i],
                    r.values()[i],
                ),
    {
        proof {
            use_type_invariant(self);
        }
        let mut entries: Vec<(String, V)> = Vec::new();
        let mut i: usize = 0;
        while i < self.entries.len()
            invariant
                i <= self.entries@.len(),
                entries@.len() == i,
                forall|j: int| 0 <= j < i ==> (#[trigger] entries@[j]).0@ == self.entries@[j].0@,
                forall|j: int|
                    0 <= j < i ==> cloned(self.entries@[j].1, (#[trigger] entries@[j]).1),
            decreases self.entries@.len() - i,
        {
            entries.push((self.entries[i].0.clone(), self.entries[i].1.clone()));
            i += 1;
        }
        assert(keys_of(entries@) =~= keys_of(self.entries@));
        TextMap { entries }
    }
}

impl<V: DeepView> DeepView for TextMap<V> {
    type V = Map<Seq<char>, V::V>;

    open spec fn deep_view(&self) -> Map<Seq<char>, V::V> {
        Map::new(|k: Seq<char>| self.has(k), |k: Seq<char>| self.spec_get(k)->0.deep_view())
    }
}

/// A set of strings, kept in ascending order.
#[derive(Debug)]
pub struct TextSet {
    members: TextMap<()>,
}

impl TextSet {
    /// The members in ascending order.
    pub closed spec fn listed(&self) -> Seq<Seq<char>> {
        self.members.keys()
    }

    /// Whether `s` is a member.
    pub open spec fn has(&self, s: Seq<char>) -> bool {
        self.listed().contains(s)
    }

    /// The set with no member.
    pub fn new() -> (r: Self)
        ensures
            r.listed() == Seq::<Seq<char>>::empty(),
    {
        TextSet { members: TextMap::new() }
    }

    /// How many members there are; the list is strictly ascending.
    pub fn len(&self) -> (r: usize)
        ensures
            r == self.listed().len(),
            r == self.deep_view().len(),
            self.deep_view().finite(),
            ascending(self.listed()),
            self.listed().no_duplicates(),
    {
        assert(self.deep_view() =~= self.members.key_set());
        self.members.len()
    }

    pub fn is_empty(&self) -> (r: bool)
        ensures
            r == (self.listed().len() == 0),
    {
        self.members.is_empty()
    }

    pub fn contains(&self, s: &str) -> (r: bool)
        ensures
            r == self.has(s@),
    {
        self.members.contains_key(s)
    }

    /// The member at a position of the ascending list.
    pub fn at(&self, i: usize) -> (r: &String)
        requires
            i < self.listed().len(),
        ensures
            r@ == self.listed()[i as int],
    {
        self.members.key_at(i)
    }

    /// Whether every member is one of `other`.
    pub fn is_subset(&self, other: &TextSet) -> (r: bool)
        ensures
            r == self.deep_view().subset_of(other.deep_view()),
    {
        let n: usize = self.len();
        let mut i: usize = 0;
        while i < n
            invariant
                i <= n,
                n == self.listed().len(),
                forall|j: int| 0 <= j < i ==> other.has(#[trigger] self.listed()[j]),
            decreases n - i,
        {
            if !other.contains(self.at(i).as_str()) {
                proof {
                    assert(self.has(self.listed()[i as int]));
                    assert(self.deep_view().contains(self.listed()[i as int]));
                }
                return false;
            }
            i += 1;
        }
        true
    }

    /// Whether both have the same members.
    pub fn same_members(&self, other: &TextSet) -> (r: bool)
        ensures
            r == (self.deep_view() == other.deep_view()),
    {
        let r: bool = self.is_subset(other) && other.is_subset(self);
        proof {
            if r {
                assert(self.deep_view() =~= other.deep_view());
            }
        }
        r
    }

    /// Adds every member of `other`.
    pub fn extend(&mut self, other: &TextSet)
        ensures
            final(self).deep_view() == old(self).deep_view().union(other.deep_view()),
    {
        let ghost before = *self;
        let n: usize = other.len();
        let mut i: usize = 0;
        while i < n
            invariant
                i <= n,
                n == other.listed().len(),
                forall|t: Seq<char>|
                    #[trigger] self.has(t) <==> (before.has(t) || exists|j: int|
                        0 <= j < i && #[trigger] other.listed()[j] == t),
            decreases n - i,
        {
            let ghost here = *self;
            self.insert(other.at(i).clone());
            proof {
                assert forall|t: Seq<char>|
                    #[trigger] self.has(t) <==> (before.has(t) || exists|j: int|
                        0 <= j < i + 1 && #[trigger] other.listed()[j] == t) by {
                    assert(self.has(t) <==> here.has(t) || t == other.listed()[i as int]);
                    assert(here.has(t) <==> (before.has(t) || exists|j: int|
                        0 <= j < i && #[trigger] other.listed()[j] == t));
                }
            }
            i += 1;
        }
        assert(self.deep_view() =~= before.deep_view().union(other.deep_view()));
    }

    /// The members in ascending order.
    pub fn to_list(&self) -> (r: Vec<String>)
        ensures
            r.deep_view() == self.listed(),
            ascending(r.deep_view()),
    {
        let n: usize = self.len();
        let mut out: Vec<String> = Vec::new();
        let mut i: usize = 0;
        while i < n
            invariant
                i <= n,
                n == self.listed().len(),
                out@.len() == i,
                forall|j: int| 0 <= j < i ==> (#[trigger] out@[j])@ == self.listed()[j],
            decreases n - i,
        {
            out.push(self.at(i).clone());
            i += 1;
        }
        assert(out.deep_view() =~= self.listed());
        out
    }

    /// Adds a member; tells whether it is new.
    pub fn insert(&mut self, s: String) -> (r: bool)
        ensures
            r == !old(self).has(s@),
            !r ==> final(self).listed() == old(self).listed(),
            forall|t: Seq<char>| final(self).has(t) <==> old(self).has(t) || t == s@,
            final(self).listed().len() == old(self).listed().len() + (if r { 1int } else { 0int }),
    {
        let ghost before = *self;
        let ghost word = s@;
        let added: bool = self.members.insert(s, ()).is_none();
        assert forall|t: Seq<char>| self.has(t) <==> before.has(t) || t == word by {
            assert(self.members.has(t) <==> before.members.has(t) || t == word);
        }
        added
    }

    /// Takes a member out.
    pub fn remove(&mut self, s: &str)
        ensures
            forall|t: Seq<char>| #[trigger] final(self).has(t) <==> old(self).has(t) && t != s@,
    {
        let n: usize = self.len();
        let ghost all = self.listed();
        let mut kept: TextSet = TextSet::new();
        let mut i: usize = 0;
        while i < n
            invariant
                i <= n,
                n == all.len(),
                all == self.listed(),
                *self == *old(self),
                forall|t: Seq<char>| #[trigger]
                    kept.has(t) <==> t != s@ && exists|j: int| 0 <= j < i && all[j] == t,
            decreases n - i,
        {
            let item: &String = self.at(i);
            let ghost before = kept;
            if !same_text(item.as_str(), s) {
                let _added: bool = kept.insert(item.clone());
            }
            proof {
                assert forall|t: Seq<char>| #[trigger]
                    kept.has(t) <==> t != s@ && exists|j: int| 0 <= j < i + 1 && all[j] == t by {
                    assert(kept.has(t) <==> before.has(t) || (t == all[i as int] && t != s@));
                    if exists|j: int| 0 <= j < i + 1 && all[j] == t {
                        let j = choose|j: int| 0 <= j < i + 1 && all[j] == t;
                        if j < i {
                            assert(0 <= j < i && all[j] == t);
                        }
                    }
                }
            }
            i += 1;
        }
        proof {
            assert forall|t: Seq<char>| #[trigger] kept.has(t) <==> old(self).has(t) && t
                != s@ by {
                if all.contains(t) {
                    let j = choose|j: int| 0 <= j < all.len() && all[j] == t;
                    assert(0 <= j < n && all[j] == t);
                }
            }
        }
        *self = kept;
    }
}

impl DeepView for TextSet {
    type V = Set<Seq<char>>;

    open spec fn deep_view(&self) -> Set<Seq<char>> {
        Set::new(|t: Seq<char>| self.has(t))
    }
}

impl Clone for TextSet {
    fn clone(&self) -> (r: Self)
        ensures
            r.listed() == self.listed(),
    {
        TextSet { members: self.members.clone() }
    }
}

/// A part stands in a text exactly where the text is something, the part and something; a text
/// begins with a prefix exactly where it is the prefix and something.
pub proof fn lemma_parts_of_a_text(before: Seq<char>, part: Seq<char>, after: Seq<char>)
    ensures
        has_part(before + part + after, part),
        begins_with(part + after, part),
        forall|s: Seq<char>| #[trigger]
            has_part(s, part) ==> exists|i: int|
                0 <= i && i + part.len() <= s.len() && s == s.take(i) + part + #[trigger] s.skip(
                    i + part.len(),
                ),
        forall|s: Seq<char>| #[trigger] begins_with(s, part) ==> s == part + s.skip(
            part.len() as int,
        ),
{
    let whole = before + part + after;
    assert(whole.subrange(before.len() as int, before.len() + part.len() as int) =~= part);
    assert(part_at(whole, part, before.len() as int));
    assert((part + after).subrange(0, part.len() as int) =~= part);
    assert forall|s: Seq<char>| #[trigger] has_part(s, part) implies exists|i: int|
        0 <= i && i + part.len() <= s.len() && s == s.take(i) + part + #[trigger] s.skip(
            i + part.len(),
        ) by {
        let i = choose|i: int| #[trigger] part_at(s, part, i);
        assert(s =~= s.take(i) + s.subrange(i, i + part.len()) + s.skip(i + part.len()));
    }
    assert forall|s: Seq<char>| #[trigger] begins_with(s, part) implies s == part + s.skip(
        part.len() as int,
    ) by {
        assert(s =~= s.subrange(0, part.len() as int) + s.skip(part.len() as int));
    }
}

/// What decimal digits stand for.
pub open spec fn number_of(digits: Seq<char>) -> int
    decreases digits.len(),
{
    if digits.len() == 0 {
        0
    } else {
        number_of(digits.drop_last()) * 10 + (digits.last() as u32 - 0x30)
    }
}

/// A number can be read back from its decimal digits.
pub proof fn lemma_decimal_reads_back(n: nat)
    ensures
        number_of(decimal(n)) == n,
        decimal(n).len() > 0,
        forall|i: int| 0 <= i < decimal(n).len() ==> '0' <= #[trigger] decimal(n)[i] <= '9',
    decreases n,
{
    let digit = (n % 10 + 0x30) as char;
    if n < 10 {
        assert(seq![digit].drop_last() =~= Seq::<char>::empty());
        reveal_with_fuel(number_of, 2);
    } else {
        lemma_decimal_reads_back(n / 10);
        assert(decimal(n / 10).push(digit).drop_last() =~= decimal(n / 10));
    }
}

/// A text stands before every longer text that begins with it, and otherwise their first different
/// bytes decide.
pub proof fn lemma_order_of_bytes(start: Seq<u8>, a: u8, b: u8, x: Seq<u8>, y: Seq<u8>)
    requires
        a < b,
    ensures
        bytes_lt(start, start.push(a)),
        !bytes_lt(start.push(a), start),
        bytes_lt(start.push(a) + x, start.push(b) + y),
        !bytes_lt(start.push(b) + y, start.push(a) + x),
    decreases start.len(),
{
    if start.len() == 0 {
        assert((start.push(a) + x)[0] == a);
        assert((start.push(b) + y)[0] == b);
    } else {
        let rest = start.drop_first();
        lemma_order_of_bytes(rest, a, b, x, y);
        assert(start.push(a).drop_first() =~= rest.push(a));
        assert((start.push(a) + x).drop_first() =~= rest.push(a) + x);
        assert((start.push(b) + y).drop_first() =~= rest.push(b) + y);
    }
}

/// White space is what Unicode has as such: the tab, the ends of lines, the space, and the spaces and
/// separators of other scripts. A text without characters is blank, and one with any other is not.
pub proof fn lemma_white_space(c: char, s: Seq<char>, i: int)
    ensures
        is_white(c) <==> {
            let u = c as u32;
            ||| u == 0x9 || u == 0xa || u == 0xb || u == 0xc || u == 0xd || u == 0x20
            ||| u == 0x85 || u == 0xa0 || u == 0x1680
            ||| u == 0x2000 || u == 0x2001 || u == 0x2002 || u == 0x2003 || u == 0x2004
            ||| u == 0x2005 || u == 0x2006 || u == 0x2007 || u == 0x2008 || u == 0x2009
            ||| u == 0x200a || u == 0x2028 || u == 0x2029 || u == 0x202f || u == 0x205f
            ||| u == 0x3000
        },
        blank(Seq::empty()),
        0 <= i < s.len() && !is_white(s[i]) ==> !blank(s),
        blank(s) && is_white(c) ==> blank(s.push(c)),
{
}

} // verus!
