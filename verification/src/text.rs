//! Exact text operations: every function is specified over the character
//! sequence that a string denotes.

use vstd::prelude::*;

verus! {

/// The ASCII lower-case form of a character; every other character is itself.
pub open spec fn lower_char(c: char) -> char {
    if 'A' <= c && c <= 'Z' {
        (c as int + 32) as char
    } else {
        c
    }
}

/// The text with every ASCII capital replaced by its small letter.
pub open spec fn lower(s: Seq<char>) -> Seq<char> {
    Seq::new(s.len(), |i: int| lower_char(s[i]))
}

/// `part` occurs somewhere in `s`.
pub open spec fn contains_text(s: Seq<char>, part: Seq<char>) -> bool {
    exists|i: int|
        0 <= i && i + part.len() <= s.len() && #[trigger] s.subrange(i, i + part.len()) == part
}

/// How many characters of `s` stand before the first `c`.
pub open spec fn first_at(s: Seq<char>, c: char) -> int
    decreases s.len(),
{
    if s.len() == 0 || s[0] == c {
        0
    } else {
        1 + first_at(s.skip(1), c)
    }
}

/// `at` is the position of the first `c` in `s`.
pub open spec fn is_first(s: Seq<char>, c: char, at: int) -> bool {
    &&& 0 <= at < s.len()
    &&& s[at] == c
    &&& forall|j: int| 0 <= j < at ==> s[j] != c
}

/// The texts of a list of strings.
pub open spec fn texts(list: Seq<String>) -> Seq<Seq<char>> {
    Seq::new(list.len(), |i: int| list[i]@)
}

/// The cells written one after the other with `sep` between neighbours.
pub open spec fn joined(cells: Seq<Seq<char>>, sep: Seq<char>) -> Seq<char>
    decreases cells.len(),
{
    if cells.len() == 0 {
        Seq::empty()
    } else if cells.len() == 1 {
        cells[0]
    } else {
        joined(cells.drop_last(), sep) + sep + cells.last()
    }
}

/// Whether two strings hold the same characters.
pub fn same_text(a: &str, b: &str) -> (r: bool)
    ensures
        r == (a@ == b@),
{
    a.to_owned() == b.to_owned()
}

/// The characters of a string.
pub fn chars_of(s: &str) -> (r: Vec<char>)
    ensures
        r@ == s@,
{
    let mut r: Vec<char> = Vec::new();
    for c in it: s.chars()
        invariant
            it.seq() == s@,
            r@ == s@.take(it.index()),
    {
        r.push(c);
    }
    r
}

/// Whether `s` begins with `prefix`.
pub fn starts_with(s: &str, prefix: &str) -> (r: bool)
    ensures
        r == prefix@.is_prefix_of(s@),
{
    let n: usize = prefix.unicode_len();
    if s.unicode_len() < n {
        return false;
    }
    same_text(s.substring_char(0, n), prefix)
}

/// Whether `part` occurs in `s`.
pub fn contains(s: &str, part: &str) -> (r: bool)
    ensures
        r == contains_text(s@, part@),
{
    let n: usize = s.unicode_len();
    let k: usize = part.unicode_len();
    if n < k {
        return false;
    }
    let mut i: usize = 0;
    loop
        invariant
            n == s@.len(),
            k == part@.len(),
            i <= n - k,
            forall|j: int| 0 <= j < i ==> #[trigger] s@.subrange(j, j + k) != part@,
        decreases n - i,
    {
        if same_text(s.substring_char(i, i + k), part) {
            assert(s@.subrange(i as int, i + part@.len()) == part@);
            return true;
        }
        if i == n - k {
            return false;
        }
        i = i + 1;
    }
}

/// The first occurrence is where `first_at` says.
pub proof fn lemma_first_at(s: Seq<char>, c: char, at: int)
    requires
        is_first(s, c, at),
    ensures
        s.contains(c),
        first_at(s, c) == at,
    decreases at,
{
    assert(s[at] == c);
    if at > 0 {
        assert(s[0] != c);
        lemma_first_at(s.skip(1), c, at - 1);
    }
}

/// The position of the first `c` in `s`.
pub fn find_char(s: &str, c: char) -> (r: Option<usize>)
    ensures
        match r {
            Some(at) => is_first(s@, c, at as int),
            None => !s@.contains(c),
        },
{
    let v: Vec<char> = chars_of(s);
    for i in 0..v.len()
        invariant
            v@ == s@,
            forall|j: int| 0 <= j < i ==> s@[j] != c,
    {
        if v[i] == c {
            return Some(i);
        }
    }
    None
}

/// Whether `s` in lower case is `small`.
pub fn same_lowered(s: &str, small: &str) -> (r: bool)
    ensures
        r == (lower(s@) == small@),
{
    let a: Vec<char> = chars_of(s);
    let b: Vec<char> = chars_of(small);
    if a.len() != b.len() {
        return false;
    }
    for i in 0..a.len()
        invariant
            a@ == s@,
            b@ == small@,
            a@.len() == b@.len(),
            forall|j: int| 0 <= j < i ==> lower_char(a@[j]) == b@[j],
    {
        if lowered(a[i]) != b[i] {
            assert(lower(s@)[i as int] != small@[i as int]);
            return false;
        }
    }
    assert(lower(s@) =~= small@);
    true
}

/// The ASCII lower-case form of a character.
pub fn lowered(c: char) -> (r: char)
    ensures
        r == lower_char(c),
{
    if 'A' <= c && c <= 'Z' {
        (c as u8 + 32) as char
    } else {
        c
    }
}

/// Two texts, one after the other.
pub fn glue(a: &str, b: &str) -> (r: String)
    ensures
        r@ == a@ + b@,
{
    let mut out: String = a.to_owned();
    out.append(b);
    out
}

/// Three texts, one after the other.
pub fn glue3(a: &str, b: &str, c: &str) -> (r: String)
    ensures
        r@ == a@ + b@ + c@,
{
    let mut out: String = a.to_owned();
    out.append(b);
    out.append(c);
    out
}

/// The cells joined by `sep`.
pub fn join(cells: &Vec<String>, sep: &str) -> (r: String)
    ensures
        r@ == joined(texts(cells@), sep@),
{
    let mut out: String = String::new();
    for i in 0..cells.len()
        invariant
            out@ == joined(texts(cells@).take(i as int), sep@),
    {
        let ghost shorter = texts(cells@).take(i as int);
        let ghost longer = texts(cells@).take(i + 1);
        assert(longer.drop_last() =~= shorter);
        assert(longer.last() == cells@[i as int]@);
        if i > 0 {
            out.append(sep);
        }
        out.append(cells[i].as_str());
        if i == 0 {
            assert(out@ =~= cells@[0]@);
        }
    }
    assert(texts(cells@).take(cells@.len() as int) =~= texts(cells@));
    out
}

/// A text occurs in another exactly if the other is it with something before and
/// something after.
pub proof fn occurring_is_standing_between(s: Seq<char>, part: Seq<char>)
    ensures
        contains_text(s, part) <==> exists|before: Seq<char>, after: Seq<char>|
            s == #[trigger] (before + part + after),
{
    if contains_text(s, part) {
        let i = choose|i: int|
            0 <= i && i + part.len() <= s.len() && #[trigger] s.subrange(i, i + part.len()) == part;
        let before = s.take(i);
        let after = s.skip(i + part.len());
        assert(s =~= before + part + after);
    }
    if exists|before: Seq<char>, after: Seq<char>| s == #[trigger] (before + part + after) {
        let (before, after) = choose|before: Seq<char>, after: Seq<char>|
            s == #[trigger] (before + part + after);
        let i = before.len() as int;
        assert(s.subrange(i, i + part.len()) =~= part);
    }
}

/// A list of one cell is written as the cell, and two lists are written one after
/// the other with the separator between them.
pub proof fn joined_pieces(a: Seq<Seq<char>>, b: Seq<Seq<char>>, sep: Seq<char>)
    requires
        a.len() > 0,
        b.len() > 0,
    ensures
        joined(seq![a[0]], sep) == a[0],
        joined(a + b, sep) == joined(a, sep) + sep + joined(b, sep),
    decreases b.len(),
{
    assert((a + b).drop_last() =~= a + b.drop_last());
    assert((a + b).last() == b.last());
    if b.len() == 1 {
        assert(a + b.drop_last() =~= a);
    } else {
        joined_pieces(a, b.drop_last(), sep);
        assert(joined(a + b, sep) =~= joined(a, sep) + sep + joined(b, sep));
    }
}

/// Lower case leaves the number of characters, changes capitals to the small
/// letters in the same place of the alphabet, and nothing else.
pub proof fn lower_case_is_letter_by_letter(s: Seq<char>, i: int)
    requires
        0 <= i < s.len(),
    ensures
        lower(s).len() == s.len(),
        'A' <= s[i] && s[i] <= 'Z' ==> 'a' <= lower(s)[i] && lower(s)[i] <= 'z' && lower(s)[i] as int
            - 'a' as int == s[i] as int - 'A' as int,
        !('A' <= s[i] && s[i] <= 'Z') ==> lower(s)[i] == s[i],
{
}

} // verus!
