//! Characters and words: the small lexical tools that the netlist grammar is
//! built from.
use vstd::prelude::*;

verus! {

/// Taken on trust from the standard library: `String::push` appends the
/// given character to the end of the string and changes nothing else of it.
pub assume_specification[ String::push ](s: &mut String, ch: char)
    ensures
        final(s)@ == old(s)@.push(ch),
;

/// The characters of `s`, in order.
pub fn chars_of(s: &str) -> (r: Vec<char>)
    ensures
        r@ == s@,
{
    let mut out: Vec<char> = Vec::new();
    let chars = s.chars();
    for c in it: chars
        invariant
            out@ == it.seq().take(it.index() as int),
            it.seq() == s@,
    {
        out.push(c);
    }
    out
}

/// The string made of `chars`, in order.
pub fn string_of(chars: &[char]) -> (r: String)
    ensures
        r@ == chars@,
{
    let mut out = String::new();
    let mut i: usize = 0;
    while i < chars.len()
        invariant
            i <= chars.len(),
            out@ == chars@.take(i as int),
        decreases chars.len() - i,
    {
        out.push(chars[i]);
        i += 1;
    }
    out
}

/// The lower-case form of an ASCII letter; every other character is itself.
pub open spec fn lower(c: char) -> char {
    if 'A' <= c && c <= 'Z' {
        ((c as u8) + 32) as char
    } else {
        c
    }
}

/// A word with every ASCII capital replaced by its small letter.
pub open spec fn lowercase(s: Seq<char>) -> Seq<char> {
    Seq::new(s.len(), |i: int| lower(s[i]))
}

/// Blank space inside a line.
pub open spec fn is_space(c: char) -> bool {
    c == ' ' || c == '\t' || c == '\r' || c == '\x0b' || c == '\x0c'
}

/// An ASCII decimal digit.
pub open spec fn is_digit(c: char) -> bool {
    '0' <= c && c <= '9'
}

/// An ASCII letter.
pub open spec fn is_letter(c: char) -> bool {
    ('a' <= c && c <= 'z') || ('A' <= c && c <= 'Z')
}

/// The numeric value of a decimal digit.
pub open spec fn digit_value(c: char) -> nat
    recommends
        is_digit(c),
{
    (c as u8 - 48) as nat
}

/// The lower-case form of an ASCII letter; every other character is itself.
pub fn to_lower(c: char) -> (r: char)
    ensures
        r == lower(c),
{
    if 'A' <= c && c <= 'Z' {
        ((c as u8) + 32) as char
    } else {
        c
    }
}

/// Whether the character is blank space inside a line.
pub fn space(c: char) -> (r: bool)
    ensures
        r == is_space(c),
{
    c == ' ' || c == '\t' || c == '\r' || c == '\x0b' || c == '\x0c'
}

/// Whether the character is an ASCII decimal digit.
pub fn digit(c: char) -> (r: bool)
    ensures
        r == is_digit(c),
{
    '0' <= c && c <= '9'
}

/// Whether the character is an ASCII letter.
pub fn letter(c: char) -> (r: bool)
    ensures
        r == is_letter(c),
{
    ('a' <= c && c <= 'z') || ('A' <= c && c <= 'Z')
}

/// `true` exactly when `word`, read without regard to the case of its ASCII
/// letters, is `keyword`. The keyword is expected in lower case.
pub fn is_keyword(word: &[char], keyword: &[char]) -> (r: bool)
    ensures
        r == (lowercase(word@) == keyword@),
{
    if word.len() != keyword.len() {
        return false;
    }
    let mut i: usize = 0;
    while i < word.len()
        invariant
            i <= word.len(),
            word.len() == keyword.len(),
            forall|j: int| 0 <= j < i ==> lower(word@[j]) == keyword@[j],
        decreases word.len() - i,
    {
        if to_lower(word[i]) != keyword[i] {
            assert(lowercase(word@)[i as int] != keyword@[i as int]);
            return false;
        }
        i += 1;
    }
    assert(lowercase(word@) =~= keyword@);
    true
}

/// Whether `i` is the first place at which `name` stands in `names`.
pub open spec fn is_first_at(names: Seq<Seq<char>>, name: Seq<char>, i: int) -> bool {
    &&& 0 <= i < names.len()
    &&& names[i] == name
    &&& forall|j: int| 0 <= j < i ==> #[trigger] names[j] != name
}

/// The first place at which `name` stands in `names`.
pub open spec fn position(names: Seq<Seq<char>>, name: Seq<char>) -> Option<int> {
    if exists|i: int| is_first_at(names, name, i) {
        Some(choose|i: int| is_first_at(names, name, i))
    } else {
        None
    }
}

/// A first place is the only first place.
pub proof fn lemma_position_found(names: Seq<Seq<char>>, name: Seq<char>, i: int)
    requires
        is_first_at(names, name, i),
    ensures
        position(names, name) == Some(i),
{
    let j = choose|j: int| is_first_at(names, name, j);
    assert(is_first_at(names, name, j));
    if j < i {
        assert(names[j] != name);
    }
    if i < j {
        assert(names[i] != name);
    }
}

/// A name that stands nowhere has no first place.
pub proof fn lemma_position_absent(names: Seq<Seq<char>>, name: Seq<char>)
    requires
        forall|j: int| 0 <= j < names.len() ==> #[trigger] names[j] != name,
    ensures
        position(names, name) is None,
{
}

/// The words that the strings of `names` spell.
pub open spec fn spelled(names: Seq<String>) -> Seq<Seq<char>> {
    Seq::new(names.len(), |i: int| names[i]@)
}

/// The first place at which a string spelling `name` stands in `names`.
pub fn find_name(names: &Vec<String>, name: &str) -> (r: Option<usize>)
    ensures
        match r {
            Some(i) => position(spelled(names@), name@) == Some(i as int),
            None => position(spelled(names@), name@) is None,
        },
{
    let key = name.to_owned();
    let mut i: usize = 0;
    while i < names.len()
        invariant
            i <= names@.len(),
            key@ == name@,
            forall|j: int| 0 <= j < i ==> #[trigger] spelled(names@)[j] != name@,
        decreases names@.len() - i,
    {
        if names[i] == key {
            proof {
                lemma_position_found(spelled(names@), name@, i as int);
            }
            return Some(i);
        }
        i += 1;
    }
    proof {
        lemma_position_absent(spelled(names@), name@);
    }
    None
}

/// The character sequences that the vectors of `v` hold.
pub open spec fn rows(v: Seq<Vec<char>>) -> Seq<Seq<char>> {
    Seq::new(v.len(), |i: int| v[i]@)
}

/// The copy of `s[from..to]`.
pub fn copy_range(s: &[char], from: usize, to: usize) -> (r: Vec<char>)
    requires
        from <= to <= s@.len(),
    ensures
        r@ == s@.subrange(from as int, to as int),
{
    let mut out: Vec<char> = Vec::new();
    let mut i = from;
    while i < to
        invariant
            from <= i <= to <= s@.len(),
            out@ == s@.subrange(from as int, i as int),
        decreases to - i,
    {
        out.push(s[i]);
        i += 1;
        assert(out@ =~= s@.subrange(from as int, i as int));
    }
    out
}

/// Reading the first `n` characters of a text line by line: the lines that
/// a line feed has closed, and the line that is still open.
pub open spec fn lines_scan(s: Seq<char>, n: nat) -> (Seq<Seq<char>>, Seq<char>)
    decreases n,
{
    if n == 0 {
        (Seq::empty(), Seq::empty())
    } else {
        let (closed, open) = lines_scan(s, (n - 1) as nat);
        if s[n - 1] == '\n' {
            (closed.push(open), Seq::empty())
        } else {
            (closed, open.push(s[n - 1]))
        }
    }
}

/// The lines of a text: what stands between its line feeds.
pub open spec fn lines_of(s: Seq<char>) -> Seq<Seq<char>> {
    lines_scan(s, s.len()).0.push(lines_scan(s, s.len()).1)
}

/// Splits a text into its lines.
pub fn split_lines(s: &[char]) -> (r: Vec<Vec<char>>)
    ensures
        rows(r@) == lines_of(s@),
{
    let mut closed: Vec<Vec<char>> = Vec::new();
    let mut open: Vec<char> = Vec::new();
    let mut i: usize = 0;
    assert(rows(closed@) =~= lines_scan(s@, 0).0);
    while i < s.len()
        invariant
            i <= s@.len(),
            rows(closed@) == lines_scan(s@, i as nat).0,
            open@ == lines_scan(s@, i as nat).1,
        decreases s@.len() - i,
    {
        if s[i] == '\n' {
            let ghost before = rows(closed@);
            closed.push(open);
            assert(rows(closed@) =~= before.push(open@));
            open = Vec::new();
        } else {
            open.push(s[i]);
        }
        i += 1;
    }
    let ghost before = rows(closed@);
    closed.push(open);
    assert(rows(closed@) =~= before.push(open@));
    closed
}

/// How many blanks stand in `s` from place `i` on without a break.
pub open spec fn blanks_from(s: Seq<char>, i: int) -> int
    decreases s.len() - i,
{
    if 0 <= i < s.len() && is_space(s[i]) {
        1 + blanks_from(s, i + 1)
    } else {
        0
    }
}

/// How many blanks stand in `s` before place `n` without a break.
pub open spec fn blanks_before(s: Seq<char>, n: int) -> int
    decreases n,
{
    if 0 < n <= s.len() && is_space(s[n - 1]) {
        1 + blanks_before(s, n - 1)
    } else {
        0
    }
}

/// A line without the blanks at its two ends.
pub open spec fn trimmed(s: Seq<char>) -> Seq<char> {
    if blanks_from(s, 0) >= s.len() {
        Seq::empty()
    } else {
        s.subrange(blanks_from(s, 0), s.len() - blanks_before(s, s.len() as int))
    }
}

/// Leading blanks end inside the line.
pub proof fn lemma_blanks_from_bound(s: Seq<char>, i: int)
    requires
        0 <= i <= s.len(),
    ensures
        0 <= blanks_from(s, i) <= s.len() - i,
    decreases s.len() - i,
{
    if i < s.len() && is_space(s[i]) {
        lemma_blanks_from_bound(s, i + 1);
    }
}

/// The line without the blanks at its two ends.
pub fn trim(s: &[char]) -> (r: Vec<char>)
    ensures
        r@ == trimmed(s@),
{
    let mut a: usize = 0;
    while a < s.len() && space(s[a])
        invariant
            a <= s@.len(),
            blanks_from(s@, 0) == a + blanks_from(s@, a as int),
        decreases s@.len() - a,
    {
        a += 1;
    }
    if a == s.len() {
        return Vec::new();
    }
    let mut b: usize = s.len();
    while b > a && space(s[b - 1])
        invariant
            a < b <= s@.len(),
            !is_space(s@[a as int]),
            blanks_before(s@, s@.len() as int) == (s@.len() - b) + blanks_before(s@, b as int),
        decreases b,
    {
        b -= 1;
    }
    copy_range(s, a, b)
}

/// What parts the words of a line: blanks, parentheses, commas and the
/// equals sign.
pub open spec fn is_separator(c: char) -> bool {
    is_space(c) || c == '(' || c == ')' || c == ',' || c == '='
}

/// Whether the character parts the words of a line.
pub fn separator(c: char) -> (r: bool)
    ensures
        r == is_separator(c),
{
    space(c) || c == '(' || c == ')' || c == ',' || c == '='
}

/// Reading the first `n` characters of a line word by word: the words that
/// a separator has closed, and the word that is still open.
pub open spec fn words_scan(s: Seq<char>, n: nat) -> (Seq<Seq<char>>, Seq<char>)
    decreases n,
{
    if n == 0 {
        (Seq::empty(), Seq::empty())
    } else {
        let (closed, open) = words_scan(s, (n - 1) as nat);
        if is_separator(s[n - 1]) {
            (if open.len() > 0 { closed.push(open) } else { closed }, Seq::empty())
        } else {
            (closed, open.push(s[n - 1]))
        }
    }
}

/// The words of a line: its longest stretches without a separator.
pub open spec fn words_of(s: Seq<char>) -> Seq<Seq<char>> {
    let (closed, open) = words_scan(s, s.len());
    if open.len() > 0 {
        closed.push(open)
    } else {
        closed
    }
}

/// Splits a line into its words. No word is empty.
pub fn split_words(s: &[char]) -> (r: Vec<Vec<char>>)
    ensures
        rows(r@) == words_of(s@),
        forall|k: int| 0 <= k < r@.len() ==> (#[trigger] r@[k])@.len() > 0,
{
    let mut closed: Vec<Vec<char>> = Vec::new();
    let mut open: Vec<char> = Vec::new();
    let mut i: usize = 0;
    assert(rows(closed@) =~= words_scan(s@, 0).0);
    while i < s.len()
        invariant
            i <= s@.len(),
            rows(closed@) == words_scan(s@, i as nat).0,
            open@ == words_scan(s@, i as nat).1,
            forall|k: int| 0 <= k < closed@.len() ==> (#[trigger] closed@[k])@.len() > 0,
        decreases s@.len() - i,
    {
        if separator(s[i]) {
            if open.len() > 0 {
                let ghost before = rows(closed@);
                closed.push(open);
                assert(rows(closed@) =~= before.push(open@));
            }
            open = Vec::new();
        } else {
            open.push(s[i]);
        }
        i += 1;
    }
    if open.len() > 0 {
        let ghost before = rows(closed@);
        closed.push(open);
        assert(rows(closed@) =~= before.push(open@));
    }
    closed
}

/// Writes the characters of `src` behind those of `dst`.
pub fn append_chars(dst: &mut Vec<char>, src: &[char])
    ensures
        final(dst)@ == old(dst)@ + src@,
{
    let mut i: usize = 0;
    assert(dst@ =~= old(dst)@ + src@.take(0));
    while i < src.len()
        invariant
            i <= src@.len(),
            dst@ == old(dst)@ + src@.take(i as int),
        decreases src@.len() - i,
    {
        dst.push(src[i]);
        i += 1;
        assert(dst@ =~= old(dst)@ + src@.take(i as int));
    }
    assert(src@.take(i as int) =~= src@);
}

/// `true` exactly when `word`, read without regard to the case of its ASCII
/// letters, is `keyword`. The keyword is expected in lower case.
pub fn word_is(word: &[char], keyword: &str) -> (r: bool)
    ensures
        r == (lowercase(word@) == keyword@),
{
    let k = chars_of(keyword);
    is_keyword(word, k.as_slice())
}

/// A name that stands somewhere has a first place.
pub proof fn lemma_position_exists(names: Seq<Seq<char>>, name: Seq<char>, i: int)
    requires
        0 <= i < names.len(),
        names[i] == name,
    ensures
        position(names, name) is Some,
        position(names, name)->0 <= i,
    decreases i,
{
    if forall|j: int| 0 <= j < i ==> #[trigger] names[j] != name {
        lemma_position_found(names, name, i);
    } else {
        let j = choose|j: int| 0 <= j < i && #[trigger] names[j] == name;
        lemma_position_exists(names, name, j);
    }
}

} // verus!
