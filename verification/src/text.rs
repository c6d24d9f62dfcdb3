//! Character-level text logic: ASCII case folding, lexicographic order on
//! character sequences, and first-occurrence substring search. The filter
//! engine is built on these.

use vstd::prelude::*;

verus! {

// ---------------------------------------------------------------------------
// Case folding
// ---------------------------------------------------------------------------
/// Folds one character to lower case. Folding is ASCII-only: letters 'A'
/// through 'Z' map to their lower-case forms, every other character is kept.
pub open spec fn lower_char(c: char) -> char {
    if c == 'A' {
        'a'
    } else if c == 'B' {
        'b'
    } else if c == 'C' {
        'c'
    } else if c == 'D' {
        'd'
    } else if c == 'E' {
        'e'
    } else if c == 'F' {
        'f'
    } else if c == 'G' {
        'g'
    } else if c == 'H' {
        'h'
    } else if c == 'I' {
        'i'
    } else if c == 'J' {
        'j'
    } else if c == 'K' {
        'k'
    } else if c == 'L' {
        'l'
    } else if c == 'M' {
        'm'
    } else if c == 'N' {
        'n'
    } else if c == 'O' {
        'o'
    } else if c == 'P' {
        'p'
    } else if c == 'Q' {
        'q'
    } else if c == 'R' {
        'r'
    } else if c == 'S' {
        's'
    } else if c == 'T' {
        't'
    } else if c == 'U' {
        'u'
    } else if c == 'V' {
        'v'
    } else if c == 'W' {
        'w'
    } else if c == 'X' {
        'x'
    } else if c == 'Y' {
        'y'
    } else if c == 'Z' {
        'z'
    } else {
        c
    }
}

/// A whole sequence folded to lower case.
pub open spec fn lower(s: Seq<char>) -> Seq<char> {
    s.map_values(|c: char| lower_char(c))
}

/// Executable case folding of one character.
pub fn lower_char_x(c: char) -> (r: char)
    ensures
        r == lower_char(c),
{
    match c {
        'A' => 'a',
        'B' => 'b',
        'C' => 'c',
        'D' => 'd',
        'E' => 'e',
        'F' => 'f',
        'G' => 'g',
        'H' => 'h',
        'I' => 'i',
        'J' => 'j',
        'K' => 'k',
        'L' => 'l',
        'M' => 'm',
        'N' => 'n',
        'O' => 'o',
        'P' => 'p',
        'Q' => 'q',
        'R' => 'r',
        'S' => 's',
        'T' => 't',
        'U' => 'u',
        'V' => 'v',
        'W' => 'w',
        'X' => 'x',
        'Y' => 'y',
        'Z' => 'z',
        _ => c,
    }
}

/// The characters of `s`, folded to lower case, as a vector.
pub fn to_lower_chars(s: &str) -> (r: Vec<char>)
    ensures
        r@ == lower(s@),
{
    let n = s.unicode_len();
    let mut r: Vec<char> = Vec::new();
    for i in 0..n
        invariant
            n == s@.len(),
            r@ == lower(s@.take(i as int)),
    {
        let c = s.get_char(i);
        r.push(lower_char_x(c));
        proof {
            assert(r@ =~= lower(s@.take(i + 1)));
        }
    }
    proof {
        assert(s@.take(n as int) =~= s@);
    }
    r
}

// ---------------------------------------------------------------------------
// Lexicographic order on character sequences
// ---------------------------------------------------------------------------
/// `a` is lexicographically at or before `b`, comparing characters by their
/// scalar values; a prefix comes before every extension of it.
pub open spec fn lex_le(a: Seq<char>, b: Seq<char>) -> bool
    decreases a.len(),
{
    if a.len() == 0 {
        true
    } else if b.len() == 0 {
        false
    } else if a[0] != b[0] {
        (a[0] as int) < (b[0] as int)
    } else {
        lex_le(a.drop_first(), b.drop_first())
    }
}

pub proof fn lemma_lex_le_refl(a: Seq<char>)
    ensures
        lex_le(a, a),
    decreases a.len(),
{
    if a.len() > 0 {
        lemma_lex_le_refl(a.drop_first());
    }
}

pub proof fn lemma_lex_le_total(a: Seq<char>, b: Seq<char>)
    ensures
        lex_le(a, b) || lex_le(b, a),
    decreases a.len(),
{
    if a.len() > 0 && b.len() > 0 && a[0] == b[0] {
        lemma_lex_le_total(a.drop_first(), b.drop_first());
    }
}

pub proof fn lemma_lex_le_trans(a: Seq<char>, b: Seq<char>, c: Seq<char>)
    requires
        lex_le(a, b),
        lex_le(b, c),
    ensures
        lex_le(a, c),
    decreases a.len(),
{
    if a.len() > 0 && b.len() > 0 && c.len() > 0 {
        if a[0] == b[0] && b[0] == c[0] {
            lemma_lex_le_trans(a.drop_first(), b.drop_first(), c.drop_first());
        }
    }
}

/// Executable lexicographic comparison.
pub fn lex_le_x(a: &Vec<char>, b: &Vec<char>) -> (r: bool)
    ensures
        r == lex_le(a@, b@),
{
    let mut i: usize = 0;
    proof {
        assert(a@.skip(0) =~= a@);
        assert(b@.skip(0) =~= b@);
    }
    loop
        invariant
            i <= a.len(),
            i <= b.len(),
            forall|j: int| 0 <= j < i ==> a@[j] == b@[j],
            lex_le(a@, b@) == lex_le(a@.skip(i as int), b@.skip(i as int)),
        decreases a.len() - i,
    {
        if i == a.len() {
            return true;
        }
        if i == b.len() {
            return false;
        }
        let ca = a[i];
        let cb = b[i];
        if ca != cb {
            return ca < cb;
        }
        proof {
            assert(a@.skip(i as int).drop_first() =~= a@.skip(i + 1));
            assert(b@.skip(i as int).drop_first() =~= b@.skip(i + 1));
        }
        i = i + 1;
    }
}

// ---------------------------------------------------------------------------
// Substring search
// ---------------------------------------------------------------------------
/// `term` occurs in `name` starting at index `i`.
pub open spec fn is_match_at(name: Seq<char>, term: Seq<char>, i: int) -> bool {
    0 <= i && i + term.len() <= name.len() && name.subrange(i, i + term.len() as int) == term
}

/// `term` occurs somewhere in `name`; the empty term occurs in every `name`.
pub open spec fn has_match(name: Seq<char>, term: Seq<char>) -> bool {
    exists|i: int| is_match_at(name, term, i)
}

/// Index of the first occurrence of `term` in `name`; meaningful only when
/// `has_match(name, term)`.
pub open spec fn match_pos(name: Seq<char>, term: Seq<char>) -> int
    decreases name.len(),
{
    if is_match_at(name, term, 0) {
        0
    } else if name.len() == 0 {
        0
    } else {
        1 + match_pos(name.drop_first(), term)
    }
}

proof fn lemma_match_shift(name: Seq<char>, term: Seq<char>, j: int)
    requires
        name.len() > 0,
        j >= 0,
    ensures
        is_match_at(name, term, j + 1) == is_match_at(name.drop_first(), term, j),
{
    if is_match_at(name, term, j + 1) {
        assert(name.drop_first().subrange(j, j + term.len() as int) =~= name.subrange(
            j + 1,
            j + 1 + term.len() as int,
        ));
    }
    if is_match_at(name.drop_first(), term, j) {
        assert(name.subrange(j + 1, j + 1 + term.len() as int) =~= name.drop_first().subrange(
            j,
            j + term.len() as int,
        ));
    }
}

/// The first occurrence, characterised from below, is exactly `match_pos`.
pub proof fn lemma_first_match_is_match_pos(name: Seq<char>, term: Seq<char>, i: int)
    requires
        is_match_at(name, term, i),
        forall|j: int| 0 <= j < i ==> !is_match_at(name, term, j),
    ensures
        match_pos(name, term) == i,
    decreases i,
{
    if i == 0 {
    } else {
        assert(!is_match_at(name, term, 0));
        assert(name.len() > 0);
        lemma_match_shift(name, term, i - 1);
        assert forall|j: int| 0 <= j < i - 1 implies !is_match_at(name.drop_first(), term, j) by {
            lemma_match_shift(name, term, j);
        }
        lemma_first_match_is_match_pos(name.drop_first(), term, i - 1);
    }
}

/// When a match exists, `match_pos` points at one and nothing earlier matches.
pub proof fn lemma_match_pos_properties(name: Seq<char>, term: Seq<char>)
    requires
        has_match(name, term),
    ensures
        is_match_at(name, term, match_pos(name, term)),
        forall|j: int| 0 <= j < match_pos(name, term) ==> !is_match_at(name, term, j),
    decreases name.len(),
{
    if is_match_at(name, term, 0) {
    } else {
        let w = choose|i: int| is_match_at(name, term, i);
        assert(w > 0);
        assert(name.len() > 0);
        lemma_match_shift(name, term, w - 1);
        assert(has_match(name.drop_first(), term));
        lemma_match_pos_properties(name.drop_first(), term);
        let p = match_pos(name.drop_first(), term);
        lemma_match_shift(name, term, p);
        assert forall|j: int| 0 <= j < match_pos(name, term) implies !is_match_at(
            name,
            term,
            j,
        ) by {
            if j > 0 {
                lemma_match_shift(name, term, j - 1);
            }
        }
    }
}

/// Without any occurrence, `match_pos` runs off the end of the name.
pub proof fn lemma_match_pos_no_match(name: Seq<char>, term: Seq<char>)
    requires
        !has_match(name, term),
    ensures
        match_pos(name, term) == name.len(),
    decreases name.len(),
{
    assert(!is_match_at(name, term, 0));
    if name.len() > 0 {
        assert forall|j: int| !is_match_at(name.drop_first(), term, j) by {
            if j >= 0 {
                lemma_match_shift(name, term, j);
                assert(!is_match_at(name, term, j + 1));
            }
        }
        lemma_match_pos_no_match(name.drop_first(), term);
    }
}

/// First occurrence of `term` in `name`, as executable search. Returns the
/// index of the first match, or `None` when `term` does not occur.
pub fn find_match(name: &Vec<char>, term: &Vec<char>) -> (r: Option<usize>)
    ensures
        (r is Some) == has_match(name@, term@),
        r is Some ==> is_match_at(name@, term@, r->Some_0 as int) && r->Some_0 as int == match_pos(
            name@,
            term@,
        ),
{
    if term.len() > name.len() {
        return None;
    }
    if term.len() == 0 {
        proof {
            assert(name@.subrange(0, 0) =~= term@);
            assert(has_match(name@, term@)) by {
                assert(is_match_at(name@, term@, 0));
            }
        }
        return Some(0);
    }
    let last_start = name.len() - term.len();
    let mut i: usize = 0;
    while i <= last_start
        invariant
            1 <= term.len() <= name.len(),
            last_start == name.len() - term.len(),
            i <= last_start + 1,
            forall|j: int| 0 <= j < i ==> !is_match_at(name@, term@, j),
        decreases last_start + 1 - i,
    {
        let mut j: usize = 0;
        let mut ok = true;
        while j < term.len()
            invariant
                term.len() <= name.len(),
                i + term.len() <= name.len(),
                j <= term.len(),
                ok ==> forall|k: int| 0 <= k < j ==> name@[i + k] == term@[k],
                !ok ==> !is_match_at(name@, term@, i as int),
            decreases term.len() - j,
        {
            if name[i + j] != term[j] {
                proof {
                    if is_match_at(name@, term@, i as int) {
                        assert(name@.subrange(i as int, i + term@.len())[j as int] == name@[i + j]);
                    }
                }
                ok = false;
                j = term.len();
            } else {
                j = j + 1;
            }
        }
        if ok {
            proof {
                assert(name@.subrange(i as int, i + term@.len()) =~= term@);
                lemma_first_match_is_match_pos(name@, term@, i as int);
                assert(has_match(name@, term@)) by {
                    assert(is_match_at(name@, term@, i as int));
                }
            }
            return Some(i);
        }
        i = i + 1;
    }
    proof {
        assert forall|j: int| !is_match_at(name@, term@, j) by {
            if 0 <= j < i {
            } else if j > last_start {
                assert(!is_match_at(name@, term@, j));
            }
        }
    }
    None
}

/// Appends one character to a string.
///
/// Relies on `String::push`, which appends the character to the end of the
/// string and changes nothing else.
#[verifier::external_body]
pub(crate) fn push_char(s: &mut String, c: char)
    ensures
        final(s)@ == old(s)@.push(c),
{
    s.push(c);
}

/// The views of a sequence of strings, in order.
pub open spec fn str_views(s: Seq<String>) -> Seq<Seq<char>> {
    s.map_values(|x: String| x@)
}

/// Character-for-character string equality.
pub fn str_eq(a: &str, b: &str) -> (r: bool)
    ensures
        r == (a@ == b@),
{
    let na = a.unicode_len();
    let nb = b.unicode_len();
    if na != nb {
        return false;
    }
    for i in 0..na
        invariant
            na == a@.len(),
            na == b@.len(),
            forall|j: int| 0 <= j < i ==> a@[j] == b@[j],
    {
        if a.get_char(i) != b.get_char(i) {
            return false;
        }
    }
    proof {
        assert(a@ =~= b@);
    }
    true
}

// ---------------------------------------------------------------------------
// Whitespace, trimming
// ---------------------------------------------------------------------------
/// The whitespace characters this library knows: space, tab, line feed,
/// carriage return.
pub open spec fn is_space_char(c: char) -> bool {
    c == ' ' || c == '\t' || c == '\n' || c == '\r'
}

/// Executable decision of [`is_space_char`].
pub fn is_space(c: char) -> (r: bool)
    ensures
        r == is_space_char(c),
{
    c == ' ' || c == '\t' || c == '\n' || c == '\r'
}

/// `s` without leading whitespace.
pub open spec fn trim_front(s: Seq<char>) -> Seq<char>
    decreases s.len(),
{
    if s.len() > 0 && is_space_char(s[0]) {
        trim_front(s.drop_first())
    } else {
        s
    }
}

/// `s` without trailing whitespace.
pub open spec fn trim_back(s: Seq<char>) -> Seq<char>
    decreases s.len(),
{
    if s.len() > 0 && is_space_char(s.last()) {
        trim_back(s.drop_last())
    } else {
        s
    }
}

/// `s` without leading and trailing whitespace.
pub open spec fn trimmed(s: Seq<char>) -> Seq<char> {
    trim_back(trim_front(s))
}

/// `s` with leading and trailing whitespace removed.
pub fn trim_str(s: &str) -> (r: String)
    ensures
        r@ == trimmed(s@),
{
    let n = s.unicode_len();
    let mut a: usize = 0;
    proof {
        assert(s@.skip(0) =~= s@);
    }
    while a < n && is_space(s.get_char(a))
        invariant
            a <= n,
            n == s@.len(),
            trim_front(s@) == trim_front(s@.skip(a as int)),
        decreases n - a,
    {
        proof {
            assert(s@.skip(a as int).drop_first() =~= s@.skip(a + 1));
        }
        a = a + 1;
    }
    proof {
        if a < n {
            assert(trim_front(s@) =~= s@.skip(a as int));
        } else {
            assert(s@.skip(a as int).len() == 0);
            assert(trim_front(s@) =~= s@.skip(a as int));
        }
    }
    let mut b: usize = n;
    proof {
        assert(s@.subrange(a as int, b as int) =~= s@.skip(a as int));
    }
    while b > a && is_space(s.get_char(b - 1))
        invariant
            a <= b <= n,
            n == s@.len(),
            trim_front(s@) == s@.skip(a as int),
            trim_back(s@.skip(a as int)) == trim_back(s@.subrange(a as int, b as int)),
        decreases b,
    {
        proof {
            assert(s@.subrange(a as int, b as int).drop_last() =~= s@.subrange(a as int, b - 1));
            assert(s@.subrange(a as int, b as int).last() == s@[b - 1]);
        }
        b = b - 1;
    }
    proof {
        assert(trim_back(s@.subrange(a as int, b as int)) =~= s@.subrange(a as int, b as int));
    }
    s.substring_char(a, b).to_owned()
}

// ---------------------------------------------------------------------------
// Splitting on spaces
// ---------------------------------------------------------------------------
/// Index of the first space in `s`, or `s.len()` when there is none.
pub open spec fn first_space(s: Seq<char>) -> int
    decreases s.len(),
{
    if s.len() == 0 {
        0
    } else if s[0] == ' ' {
        0
    } else {
        1 + first_space(s.drop_first())
    }
}

/// The first-space index, characterised from below.
pub proof fn lemma_first_space_at(s: Seq<char>, k: int)
    requires
        0 <= k <= s.len(),
        forall|j: int| 0 <= j < k ==> s[j] != ' ',
        k < s.len() ==> s[k] == ' ',
    ensures
        first_space(s) == k,
    decreases k,
{
    if k == 0 {
    } else {
        assert(s[0] != ' ');
        assert forall|j: int| 0 <= j < k - 1 implies s.drop_first()[j] != ' ' by {
            assert(s.drop_first()[j] == s[j + 1]);
        }
        if k - 1 < s.drop_first().len() {
            assert(s.drop_first()[k - 1] == s[k]);
        }
        lemma_first_space_at(s.drop_first(), k - 1);
    }
}

/// `s` split on single spaces: the pieces between the spaces, in order,
/// empty pieces kept. The empty sequence splits into one empty piece.
pub open spec fn split_spaces(s: Seq<char>) -> Seq<Seq<char>>
    decreases s.len(),
{
    let k = first_space(s);
    if 0 <= k < s.len() {
        seq![s.take(k)] + split_spaces(s.skip(k + 1))
    } else {
        seq![s]
    }
}

/// `s` split on single spaces, as owned strings.
pub fn split_tokens(s: &str) -> (r: Vec<String>)
    ensures
        str_views(r@) == split_spaces(s@),
{
    let n = s.unicode_len();
    let mut r: Vec<String> = Vec::new();
    let mut start: usize = 0;
    proof {
        assert(s@.skip(0) =~= s@);
    }
    loop
        invariant
            start <= n,
            n == s@.len(),
            str_views(r@) + split_spaces(s@.skip(start as int)) == split_spaces(s@),
        decreases n - start,
    {
        let ghost rest = s@.skip(start as int);
        let mut i = start;
        while i < n && s.get_char(i) != ' '
            invariant
                start <= i <= n,
                n == s@.len(),
                forall|j: int| start <= j < i ==> s@[j] != ' ',
            decreases n - i,
        {
            i = i + 1;
        }
        proof {
            assert forall|j: int| 0 <= j < i - start implies rest[j] != ' ' by {
                assert(rest[j] == s@[start + j]);
            }
            if i < n {
                assert(rest[i - start] == s@[i as int]);
            }
            lemma_first_space_at(rest, i - start);
        }
        let ghost r0 = r@;
        let tok = s.substring_char(start, i).to_owned();
        r.push(tok);
        if i < n {
            proof {
                assert(rest.take(i - start) =~= s@.subrange(start as int, i as int));
                assert(rest.skip(i - start + 1) =~= s@.skip(i + 1));
                assert(str_views(r@) =~= str_views(r0).push(s@.subrange(
                    start as int,
                    i as int,
                )));
                assert(str_views(r@) + split_spaces(s@.skip(i + 1)) =~= str_views(r0)
                    + split_spaces(rest));
            }
            start = i + 1;
        } else {
            proof {
                assert(rest =~= s@.subrange(start as int, i as int));
                assert(split_spaces(rest) =~= seq![rest]);
                assert(str_views(r@) =~= str_views(r0).push(rest));
                assert(str_views(r@) =~= split_spaces(s@));
            }
            return r;
        }
    }
}

// ---------------------------------------------------------------------------
// Paths
// ---------------------------------------------------------------------------
/// Everything before the last slash of `s`, the slash excluded; empty when
/// `s` has no slash.
pub open spec fn dirname_of(s: Seq<char>) -> Seq<char>
    decreases s.len(),
{
    if s.len() == 0 {
        s
    } else if s.last() == '/' {
        s.drop_last()
    } else {
        dirname_of(s.drop_last())
    }
}

/// `s` with every whitespace character removed.
pub open spec fn strip_spaces(s: Seq<char>) -> Seq<char> {
    s.filter(|c: char| !is_space_char(c))
}

/// The parent directory the browser moves back to: the path up to the last
/// slash, whitespace removed.
pub open spec fn parent_of(s: Seq<char>) -> Seq<char> {
    strip_spaces(dirname_of(s))
}

/// A slash-free path has no directory part.
proof fn lemma_dirname_none(s: Seq<char>)
    requires
        forall|j: int| 0 <= j < s.len() ==> s[j] != '/',
    ensures
        dirname_of(s).len() == 0,
    decreases s.len(),
{
    if s.len() > 0 {
        assert forall|j: int| 0 <= j < s.drop_last().len() implies s.drop_last()[j] != '/' by {
            assert(s.drop_last()[j] == s[j]);
        }
        lemma_dirname_none(s.drop_last());
    }
}

/// The directory part ends right before the last slash.
proof fn lemma_dirname_at(s: Seq<char>, k: int)
    requires
        0 <= k < s.len(),
        s[k] == '/',
        forall|j: int| k < j < s.len() ==> s[j] != '/',
    ensures
        dirname_of(s) == s.take(k),
    decreases s.len(),
{
    if k == s.len() - 1 {
        assert(dirname_of(s) =~= s.take(k));
    } else {
        assert(s.last() != '/');
        assert(s.drop_last()[k] == s[k]);
        assert forall|j: int| k < j < s.drop_last().len() implies s.drop_last()[j] != '/' by {
            assert(s.drop_last()[j] == s[j]);
        }
        lemma_dirname_at(s.drop_last(), k);
        assert(s.drop_last().take(k) =~= s.take(k));
    }
}

proof fn lemma_strip_spaces_id(s: Seq<char>)
    requires
        forall|j: int| 0 <= j < s.len() ==> !is_space_char(#[trigger] s[j]),
    ensures
        strip_spaces(s) == s,
    decreases s.len(),
{
    reveal(Seq::filter);
    if s.len() > 0 {
        assert forall|j: int| 0 <= j < s.drop_last().len() implies !is_space_char(
            #[trigger] s.drop_last()[j],
        ) by {
            assert(s.drop_last()[j] == s[j]);
        }
        lemma_strip_spaces_id(s.drop_last());
        assert(strip_spaces(s) =~= s);
    }
}

/// Going back after entering a child restores the directory: the parent of
/// a path built as `dir`, slash, child name is `dir` again, for any child
/// name without a slash and any directory path without whitespace.
pub proof fn lemma_parent_of_child(dir: Seq<char>, name: Seq<char>)
    requires
        forall|j: int| 0 <= j < name.len() ==> name[j] != '/',
        forall|j: int| 0 <= j < dir.len() ==> !is_space_char(#[trigger] dir[j]),
    ensures
        parent_of(dir + seq!['/'] + name) == dir,
{
    let s = dir + seq!['/'] + name;
    assert(s[dir.len() as int] == '/');
    assert forall|j: int| dir.len() < j < s.len() implies s[j] != '/' by {
        assert(s[j] == name[j - dir.len() - 1]);
    }
    lemma_dirname_at(s, dir.len() as int);
    assert(s.take(dir.len() as int) =~= dir);
    lemma_strip_spaces_id(dir);
}

/// The parent path of `s`: everything before its last slash, with whitespace
/// removed, as an owned string.
pub fn parent_str(s: &str) -> (r: String)
    ensures
        r@ == parent_of(s@),
{
    let n = s.unicode_len();
    let mut last_slash: Option<usize> = None;
    for i in 0..n
        invariant
            n == s@.len(),
            match last_slash {
                Some(k) => k < i && s@[k as int] == '/' && forall|j: int|
                    k < j < i ==> s@[j] != '/',
                None => forall|j: int| 0 <= j < i ==> s@[j] != '/',
            },
    {
        if s.get_char(i) == '/' {
            last_slash = Some(i);
        }
    }
    let ghost dirname = dirname_of(s@);
    let end: usize = match last_slash {
        Some(k) => {
            proof {
                lemma_dirname_at(s@, k as int);
            }
            k
        },
        None => {
            proof {
                lemma_dirname_none(s@);
                assert(dirname =~= s@.take(0));
            }
            0
        },
    };
    let mut r = String::new();
    proof {
        reveal(Seq::filter);
        assert(dirname.take(0) =~= Seq::<char>::empty());
        assert(r@ =~= strip_spaces(dirname.take(0)));
    }
    for i in 0..end
        invariant
            end <= n,
            n == s@.len(),
            dirname == s@.take(end as int),
            r@ == strip_spaces(dirname.take(i as int)),
        {
        let c = s.get_char(i);
        proof {
            reveal(Seq::filter);
            assert(dirname.take(i + 1) =~= dirname.take(i as int).push(s@[i as int]));
            assert(dirname.take(i + 1).drop_last() =~= dirname.take(i as int));
        }
        if !is_space(c) {
            push_char(&mut r, c);
        }
        proof {
            assert(r@ =~= strip_spaces(dirname.take(i + 1)));
        }
    }
    proof {
        assert(dirname.take(end as int) =~= dirname);
    }
    r
}

/// `c` occurs in `s`.
pub fn contains_char(s: &str, c: char) -> (r: bool)
    ensures
        r == s@.contains(c),
{
    let n = s.unicode_len();
    for i in 0..n
        invariant
            n == s@.len(),
            forall|j: int| 0 <= j < i ==> s@[j] != c,
    {
        if s.get_char(i) == c {
            return true;
        }
    }
    false
}

} // verus!
