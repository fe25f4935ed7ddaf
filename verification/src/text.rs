//! Text: the searching, splitting and writing that the rest of the library is made of.
//!
//! A text is modelled by its sequence of characters.

use vstd::prelude::*;

verus! {

broadcast use vstd::string::group_string_axioms;

/// `String::push` of std appends the given character to the end of the text.
pub assume_specification[ String::push ](s: &mut String, c: char)
    ensures
        final(s)@ == old(s)@.push(c),
;

/// `==` of std on string slices holds exactly when the two texts have the same characters.
pub assume_specification[ <str as PartialEq>::eq ](a: &str, b: &str) -> (same: bool)
    ensures
        same == (a@ == b@),
;

/// The characters of every text of a list.
pub open spec fn views(texts: Seq<String>) -> Seq<Seq<char>> {
    texts.map_values(|t: String| t@)
}

/// The characters of a text that may be missing.
pub open spec fn opt_view(text: Option<String>) -> Option<Seq<char>> {
    match text {
        Some(t) => Some(t@),
        None => None,
    }
}

/// Whether `pattern` stands in `s` at position `i`.
pub open spec fn occurs_at(s: Seq<char>, pattern: Seq<char>, i: int) -> bool {
    &&& 0 <= i
    &&& i + pattern.len() <= s.len()
    &&& s.subrange(i, i + pattern.len()) == pattern
}

/// Whether the first occurrence of `pattern` in `s` is at position `i`.
pub open spec fn first_at(s: Seq<char>, pattern: Seq<char>, i: int) -> bool {
    &&& occurs_at(s, pattern, i)
    &&& forall|j: int| 0 <= j < i ==> !occurs_at(s, pattern, j)
}

/// Where `pattern` first occurs in `s`, if it does.
pub open spec fn find(s: Seq<char>, pattern: Seq<char>) -> Option<int> {
    if exists|i: int| first_at(s, pattern, i) {
        Some(choose|i: int| first_at(s, pattern, i))
    } else {
        None
    }
}

/// Two first occurrences are the same one.
pub proof fn lemma_find_is(s: Seq<char>, pattern: Seq<char>, i: int)
    requires
        first_at(s, pattern, i),
    ensures
        find(s, pattern) == Some(i),
{
    let j = choose|j: int| first_at(s, pattern, j);
    assert(first_at(s, pattern, j));
    assert(j == i);
}

/// The pieces of `s` between the occurrences of `separator`; there is always one at least.
pub open spec fn split(s: Seq<char>, separator: char) -> Seq<Seq<char>>
    decreases s.len(),
{
    if s.len() == 0 {
        seq![Seq::<char>::empty()]
    } else {
        let pieces = split(s.drop_last(), separator);
        if s.last() == separator {
            pieces.push(Seq::<char>::empty())
        } else {
            pieces.update(pieces.len() - 1, pieces.last().push(s.last()))
        }
    }
}

/// A text has one piece at least.
pub proof fn lemma_split_has_a_piece(s: Seq<char>, separator: char)
    ensures
        split(s, separator).len() > 0,
    decreases s.len(),
{
    if s.len() > 0 {
        lemma_split_has_a_piece(s.drop_last(), separator);
    }
}

/// The texts of `pieces` in order, with `separator` between each two of them.
pub open spec fn join(pieces: Seq<Seq<char>>, separator: Seq<char>) -> Seq<char>
    decreases pieces.len(),
{
    if pieces.len() == 0 {
        Seq::<char>::empty()
    } else if pieces.len() == 1 {
        pieces[0]
    } else {
        join(pieces.drop_last(), separator) + separator + pieces.last()
    }
}

/// No piece of a text holds the separator.
pub proof fn lemma_pieces_are_free(s: Seq<char>, separator: char)
    ensures
        forall|i: int|
            0 <= i < split(s, separator).len() ==> !(#[trigger] split(s, separator)[i]).contains(
                separator,
            ),
    decreases s.len(),
{
    if s.len() > 0 {
        let before = split(s.drop_last(), separator);
        lemma_pieces_are_free(s.drop_last(), separator);
        lemma_split_has_a_piece(s.drop_last(), separator);
        let pieces = split(s, separator);
        assert forall|i: int| 0 <= i < pieces.len() implies !(#[trigger] pieces[i]).contains(
            separator,
        ) by {
            if i < before.len() {
                assert(!before[i].contains(separator));
                if i == before.len() - 1 && s.last() != separator {
                    let grown = before.last().push(s.last());
                    assert(pieces[i] == grown);
                    if grown.contains(separator) {
                        let k = choose|k: int| 0 <= k < grown.len() && grown[k] == separator;
                        assert(before.last()[k] == separator);
                    }
                }
            }
        }
    }
}

/// Every character of a piece is one of the text.
pub proof fn lemma_pieces_come_from(s: Seq<char>, separator: char)
    ensures
        forall|i: int, k: int|
            0 <= i < split(s, separator).len() && 0 <= k < split(s, separator)[i].len()
                ==> s.contains(#[trigger] split(s, separator)[i][k]),
    decreases s.len(),
{
    if s.len() > 0 {
        let before = split(s.drop_last(), separator);
        lemma_pieces_come_from(s.drop_last(), separator);
        lemma_split_has_a_piece(s.drop_last(), separator);
        let pieces = split(s, separator);
        assert forall|i: int, k: int|
            0 <= i < pieces.len() && 0 <= k < pieces[i].len() implies s.contains(
            #[trigger] pieces[i][k],
        ) by {
            if i < before.len() && k < before[i].len() {
                assert(s.drop_last().contains(before[i][k]));
                let m = choose|m: int|
                    0 <= m < s.drop_last().len() && s.drop_last()[m] == before[i][k];
                assert(s[m] == pieces[i][k]);
            } else {
                assert(s[s.len() - 1] == pieces[i][k]);
            }
        }
    }
}

/// Filtering changes nothing where everything is kept.
pub proof fn lemma_filter_of_kept(s: Seq<char>, kept: spec_fn(char) -> bool)
    requires
        forall|i: int| 0 <= i < s.len() ==> kept(#[trigger] s[i]),
    ensures
        s.filter(kept) == s,
    decreases s.len(),
{
    reveal(Seq::filter);
    if s.len() > 0 {
        assert forall|i: int| 0 <= i < s.drop_last().len() implies kept(
            #[trigger] s.drop_last()[i],
        ) by {
            assert(kept(s[i]));
        }
        lemma_filter_of_kept(s.drop_last(), kept);
        assert(kept(s[s.len() - 1]));
        assert(s.drop_last().push(s.last()) =~= s);
    }
}

/// Joining the pieces of a text by the separator gives the text back.
pub proof fn lemma_join_of_split(s: Seq<char>, separator: char)
    ensures
        join(split(s, separator), seq![separator]) == s,
    decreases s.len(),
{
    if s.len() == 0 {
        assert(join(split(s, separator), seq![separator]) =~= s);
    } else {
        let before = split(s.drop_last(), separator);
        let pieces = split(s, separator);
        lemma_join_of_split(s.drop_last(), separator);
        lemma_split_has_a_piece(s.drop_last(), separator);
        if s.last() == separator {
            assert(pieces.drop_last() =~= before);
            assert(join(pieces, seq![separator]) =~= s);
        } else {
            assert(pieces.drop_last() =~= before.drop_last());
            assert(join(pieces, seq![separator]) =~= join(before, seq![separator]).push(s.last()));
            assert(s.drop_last().push(s.last()) =~= s);
        }
    }
}

/// A text without the separator is its own single piece.
pub proof fn lemma_split_of_free(s: Seq<char>, separator: char)
    requires
        !s.contains(separator),
    ensures
        split(s, separator) == seq![s],
    decreases s.len(),
{
    if s.len() == 0 {
        assert(s =~= Seq::<char>::empty());
    } else {
        assert(s[s.len() - 1] != separator);
        assert forall|k: int| 0 <= k < s.drop_last().len() implies s.drop_last()[k] != separator by {
            assert(s[k] != separator);
        }
        lemma_split_of_free(s.drop_last(), separator);
        assert(s.drop_last().push(s.last()) =~= s);
        assert(split(s, separator) =~= seq![s]);
    }
}

/// What follows a separator is one more piece, where it holds no separator.
pub proof fn lemma_split_of_appended(s: Seq<char>, separator: char, piece: Seq<char>)
    requires
        !piece.contains(separator),
    ensures
        split(s.push(separator) + piece, separator) == split(s, separator).push(piece),
    decreases piece.len(),
{
    let whole = s.push(separator) + piece;
    if piece.len() == 0 {
        assert(whole =~= s.push(separator));
        assert(whole.drop_last() =~= s);
        assert(piece =~= Seq::<char>::empty());
    } else {
        let shorter = piece.drop_last();
        assert(piece[piece.len() - 1] != separator);
        assert forall|k: int| 0 <= k < shorter.len() implies shorter[k] != separator by {
            assert(piece[k] != separator);
        }
        lemma_split_of_appended(s, separator, shorter);
        assert(whole.drop_last() =~= s.push(separator) + shorter);
        assert(shorter.push(piece.last()) =~= piece);
        assert(split(whole, separator) =~= split(s, separator).push(piece));
    }
}

/// Splitting texts that were joined by a separator gives the texts back, where none holds it.
pub proof fn lemma_split_of_join(pieces: Seq<Seq<char>>, separator: char)
    requires
        pieces.len() > 0,
        forall|i: int| 0 <= i < pieces.len() ==> !(#[trigger] pieces[i]).contains(separator),
    ensures
        split(join(pieces, seq![separator]), separator) == pieces,
    decreases pieces.len(),
{
    if pieces.len() == 1 {
        lemma_split_of_free(pieces[0], separator);
        assert(pieces =~= seq![pieces[0]]);
    } else {
        let first = pieces.drop_last();
        assert forall|i: int| 0 <= i < first.len() implies !(#[trigger] first[i]).contains(
            separator,
        ) by {
            assert(first[i] == pieces[i]);
        }
        lemma_split_of_join(first, separator);
        let start = join(first, seq![separator]);
        assert(!pieces[pieces.len() - 1].contains(separator));
        lemma_split_of_appended(start, separator, pieces.last());
        assert(start.push(separator) + pieces.last() =~= start + seq![separator] + pieces.last());
        assert(first.push(pieces.last()) =~= pieces);
    }
}

/// A text in front of others is joined to them by one more separator.
pub proof fn lemma_join_of_front(front: Seq<char>, pieces: Seq<Seq<char>>, separator: Seq<char>)
    requires
        pieces.len() > 0,
    ensures
        join(seq![front] + pieces, separator) == front + separator + join(pieces, separator),
    decreases pieces.len(),
{
    let all = seq![front] + pieces;
    assert(all.drop_last() =~= seq![front] + pieces.drop_last());
    if pieces.len() == 1 {
        assert(all.drop_last() =~= seq![front]);
        assert(join(all.drop_last(), separator) == front);
    } else {
        lemma_join_of_front(front, pieces.drop_last(), separator);
    }
    assert(join(all, separator) =~= front + separator + join(pieces, separator));
}

/// `s` with the first occurrence of `pattern` replaced.
pub open spec fn replace_first(s: Seq<char>, pattern: Seq<char>, with: Seq<char>) -> Seq<char> {
    match find(s, pattern) {
        Some(i) => s.subrange(0, i) + with + s.subrange(i + pattern.len(), s.len() as int),
        None => s,
    }
}

/// Whether a character is white space, by the White_Space property of Unicode.
pub open spec fn is_white_space(c: char) -> bool {
    let code = c as u32;
    ||| 0x09 <= code <= 0x0d
    ||| code == 0x20
    ||| code == 0x85
    ||| code == 0xa0
    ||| code == 0x1680
    ||| 0x2000 <= code <= 0x200a
    ||| code == 0x2028
    ||| code == 0x2029
    ||| code == 0x202f
    ||| code == 0x205f
    ||| code == 0x3000
}

/// `s` without the white space at its start.
pub open spec fn trim_start(s: Seq<char>) -> Seq<char>
    decreases s.len(),
{
    if s.len() > 0 && is_white_space(s.first()) {
        trim_start(s.drop_first())
    } else {
        s
    }
}

/// `s` without the white space at its end.
pub open spec fn trim_end(s: Seq<char>) -> Seq<char>
    decreases s.len(),
{
    if s.len() > 0 && is_white_space(s.last()) {
        trim_end(s.drop_last())
    } else {
        s
    }
}

/// `s` without the white space at both ends.
pub open spec fn trim(s: Seq<char>) -> Seq<char> {
    trim_end(trim_start(s))
}

/// Trimming adds no character.
pub proof fn lemma_trim_stays_free(s: Seq<char>, c: char)
    requires
        !s.contains(c),
    ensures
        !trim(s).contains(c),
{
    lemma_trim_start_stays_free(s, c);
    lemma_trim_end_stays_free(trim_start(s), c);
}

proof fn lemma_trim_start_stays_free(s: Seq<char>, c: char)
    requires
        !s.contains(c),
    ensures
        !trim_start(s).contains(c),
    decreases s.len(),
{
    if s.len() > 0 && is_white_space(s.first()) {
        assert forall|k: int| 0 <= k < s.drop_first().len() implies s.drop_first()[k] != c by {
            assert(s[k + 1] != c);
        }
        lemma_trim_start_stays_free(s.drop_first(), c);
    }
}

proof fn lemma_trim_end_stays_free(s: Seq<char>, c: char)
    requires
        !s.contains(c),
    ensures
        !trim_end(s).contains(c),
    decreases s.len(),
{
    if s.len() > 0 && is_white_space(s.last()) {
        assert forall|k: int| 0 <= k < s.drop_last().len() implies s.drop_last()[k] != c by {
            assert(s[k] != c);
        }
        lemma_trim_end_stays_free(s.drop_last(), c);
    }
}

/// The lower case of an ASCII capital; every other character is its own.
pub open spec fn ascii_lower_char(c: char) -> char {
    if 'A' <= c <= 'Z' {
        ((c as u32) + 32) as char
    } else {
        c
    }
}

/// `s` with its ASCII capitals in lower case.
pub open spec fn ascii_lower(s: Seq<char>) -> Seq<char> {
    s.map_values(|c: char| ascii_lower_char(c))
}

/// The character of a decimal digit.
pub open spec fn digit(d: nat) -> char {
    (('0' as u32) + d) as char
}

/// A number in decimal notation.
pub open spec fn decimal(n: nat) -> Seq<char>
    decreases n,
{
    if n < 10 {
        seq![digit(n)]
    } else {
        decimal(n / 10).push(digit(n % 10))
    }
}

/// The characters of a text, in order.
pub(crate) fn to_chars(text: &str) -> (chars: Vec<char>)
    ensures
        chars@ == text@,
{
    let mut chars: Vec<char> = Vec::new();
    for c in it: text.chars()
        invariant
            it.seq() == text@,
            chars@ == text@.take(it.index()),
    {
        chars.push(c);
    }
    chars
}

/// The text of the characters from `from` up to `to`.
pub(crate) fn to_text(chars: &Vec<char>, from: usize, to: usize) -> (text: String)
    requires
        from <= to <= chars@.len(),
    ensures
        text@ == chars@.subrange(from as int, to as int),
{
    let mut text = String::new();
    let mut i: usize = from;
    while i < to
        invariant
            from <= i <= to <= chars@.len(),
            text@ == chars@.subrange(from as int, i as int),
        decreases to - i,
    {
        text.push(chars[i]);
        i = i + 1;
    }
    text
}

/// Where `pattern` first occurs in `s`, if it does.
pub(crate) fn find_chars(s: &Vec<char>, pattern: &Vec<char>) -> (found: Option<usize>)
    ensures
        match found {
            Some(i) => find(s@, pattern@) == Some(i as int) && first_at(s@, pattern@, i as int),
            None => find(s@, pattern@) is None,
        },
{
    let length: usize = s.len();
    let mut i: usize = 0;
    while i <= length && pattern.len() <= length - i
        invariant
            length == s@.len(),
            i <= length + 1,
            forall|j: int| 0 <= j < i ==> !occurs_at(s@, pattern@, j),
        decreases length + 1 - i,
    {
        let mut k: usize = 0;
        while k < pattern.len() && s[i + k] == pattern[k]
            invariant
                length == s@.len(),
                i + pattern@.len() <= length,
                k <= pattern@.len(),
                forall|m: int| 0 <= m < k ==> s@[i + m] == pattern@[m],
            decreases pattern@.len() - k,
        {
            k = k + 1;
        }
        if k == pattern.len() {
            assert(s@.subrange(i as int, i + pattern@.len()) =~= pattern@);
            proof {
                lemma_find_is(s@, pattern@, i as int);
            }
            return Some(i);
        }
        assert(!occurs_at(s@, pattern@, i as int)) by {
            assert(s@.subrange(i as int, i + pattern@.len())[k as int] != pattern@[k as int]);
        }
        i = i + 1;
    }
    assert forall|j: int| !first_at(s@, pattern@, j) by {
        if occurs_at(s@, pattern@, j) {
            assert(j < i);
        }
    }
    None
}

/// Whether a text begins with `prefix`.
pub fn starts_with(text: &str, prefix: &str) -> (yes: bool)
    ensures
        yes == prefix@.is_prefix_of(text@),
{
    let s = to_chars(text);
    let p = to_chars(prefix);
    if p.len() > s.len() {
        return false;
    }
    let mut k: usize = 0;
    while k < p.len()
        invariant
            k <= p@.len() <= s@.len(),
            s@ == text@,
            p@ == prefix@,
            forall|m: int| 0 <= m < k ==> s@[m] == p@[m],
        decreases p@.len() - k,
    {
        if s[k] != p[k] {
            assert(text@[k as int] != prefix@[k as int]);
            return false;
        }
        k = k + 1;
    }
    assert(s@.subrange(0, p@.len() as int) =~= p@);
    true
}

/// Whether a text holds a character.
pub fn contains_char(text: &str, wanted: char) -> (yes: bool)
    ensures
        yes == text@.contains(wanted),
{
    let s = to_chars(text);
    let mut k: usize = 0;
    while k < s.len()
        invariant
            k <= s@.len(),
            s@ == text@,
            forall|m: int| 0 <= m < k ==> s@[m] != wanted,
        decreases s@.len() - k,
    {
        if s[k] == wanted {
            assert(text@[k as int] == wanted);
            return true;
        }
        k = k + 1;
    }
    false
}

/// The pieces of a text between the occurrences of `separator`.
pub fn split_text(text: &str, separator: char) -> (pieces: Vec<String>)
    ensures
        views(pieces@) == split(text@, separator),
{
    let chars = to_chars(text);
    let mut pieces: Vec<String> = Vec::new();
    let mut piece = String::new();
    let mut i: usize = 0;
    assert(views(pieces@).push(piece@) =~= split(chars@.take(0), separator));
    while i < chars.len()
        invariant
            i <= chars@.len(),
            views(pieces@).push(piece@) == split(chars@.take(i as int), separator),
        decreases chars@.len() - i,
    {
        let c = chars[i];
        let ghost before = views(pieces@).push(piece@);
        assert(chars@.take(i + 1).drop_last() =~= chars@.take(i as int));
        if c == separator {
            pieces.push(piece);
            piece = String::new();
            assert(views(pieces@) =~= before);
            assert(piece@ =~= Seq::<char>::empty());
        } else {
            piece.push(c);
            assert(views(pieces@).push(piece@) =~= before.update(
                before.len() - 1,
                before.last().push(c),
            ));
        }
        i = i + 1;
    }
    assert(chars@.take(chars@.len() as int) =~= text@);
    let ghost all = views(pieces@).push(piece@);
    pieces.push(piece);
    assert(views(pieces@) =~= all);
    pieces
}

/// The texts of `pieces` in order, with `separator` between each two of them.
pub fn join_texts(pieces: &Vec<String>, separator: &str) -> (text: String)
    ensures
        text@ == join(views(pieces@), separator@),
{
    let mut text = String::new();
    let mut i: usize = 0;
    let ghost all = views(pieces@);
    assert(all.take(0) =~= Seq::<Seq<char>>::empty());
    assert(text@ =~= join(all.take(0), separator@));
    while i < pieces.len()
        invariant
            i <= pieces@.len(),
            all == views(pieces@),
            text@ == join(all.take(i as int), separator@),
        decreases pieces@.len() - i,
    {
        assert(all.take(i + 1).drop_last() =~= all.take(i as int));
        if i > 0 {
            text.append(separator);
        } else {
            assert(text@ =~= Seq::<char>::empty());
        }
        text.append(pieces[i].as_str());
        assert(text@ =~= join(all.take(i + 1), separator@));
        i = i + 1;
    }
    assert(all.take(i as int) =~= all);
    text
}

/// A text with the first occurrence of `pattern` replaced.
pub fn replace_first_in(text: &str, pattern: &str, with: &str) -> (replaced: String)
    ensures
        replaced@ == replace_first(text@, pattern@, with@),
{
    let s = to_chars(text);
    let p = to_chars(pattern);
    match find_chars(&s, &p) {
        Some(i) => {
            let mut replaced = to_text(&s, 0, i);
            let end: usize = s.len();
            replaced.append(with);
            replaced.append(to_text(&s, i + p.len(), end).as_str());
            replaced
        },
        None => text.to_owned(),
    }
}

/// Whether a character is white space, by the White_Space property of Unicode.
pub fn is_white_space_char(c: char) -> (yes: bool)
    ensures
        yes == is_white_space(c),
{
    let code: u32 = c as u32;
    (0x09 <= code && code <= 0x0d) || code == 0x20 || code == 0x85 || code == 0xa0 || code == 0x1680
        || (0x2000 <= code && code <= 0x200a) || code == 0x2028 || code == 0x2029 || code == 0x202f
        || code == 0x205f || code == 0x3000
}

/// A text without the white space at both ends.
pub fn trim_text(text: &str) -> (trimmed: String)
    ensures
        trimmed@ == trim(text@),
{
    let chars = to_chars(text);
    let mut from: usize = 0;
    assert(chars@.skip(0) =~= chars@);
    while from < chars.len() && is_white_space_char(chars[from])
        invariant
            from <= chars@.len(),
            trim_start(chars@.skip(from as int)) == trim_start(chars@),
        decreases chars@.len() - from,
    {
        assert(chars@.skip(from as int).drop_first() =~= chars@.skip(from + 1));
        from = from + 1;
    }
    let ghost rest = trim_start(chars@);
    assert(rest == chars@.skip(from as int));
    let mut to: usize = chars.len();
    assert(chars@.subrange(from as int, to as int) =~= rest);
    while to > from && is_white_space_char(chars[to - 1])
        invariant
            from <= to <= chars@.len(),
            trim_end(chars@.subrange(from as int, to as int)) == trim_end(rest),
        decreases to,
    {
        assert(chars@.subrange(from as int, to as int).drop_last() =~= chars@.subrange(
            from as int,
            to - 1,
        ));
        to = to - 1;
    }
    to_text(&chars, from, to)
}

/// The lower case of an ASCII capital; every other character is its own.
pub fn ascii_lower_of(c: char) -> (lower: char)
    ensures
        lower == ascii_lower_char(c),
{
    if 'A' <= c && c <= 'Z' {
        ((c as u8) + 32) as char
    } else {
        c
    }
}

/// Whether two texts are the same but for the case of ASCII letters.
pub fn same_ignoring_ascii_case(a: &str, b: &str) -> (same: bool)
    ensures
        same == (ascii_lower(a@) == ascii_lower(b@)),
{
    let x = to_chars(a);
    let y = to_chars(b);
    if x.len() != y.len() {
        assert(ascii_lower(a@).len() != ascii_lower(b@).len());
        return false;
    }
    let mut k: usize = 0;
    while k < x.len()
        invariant
            k <= x@.len() == y@.len(),
            x@ == a@,
            y@ == b@,
            forall|m: int| 0 <= m < k ==> ascii_lower(a@)[m] == ascii_lower(b@)[m],
        decreases x@.len() - k,
    {
        if ascii_lower_of(x[k]) != ascii_lower_of(y[k]) {
            assert(ascii_lower(a@)[k as int] != ascii_lower(b@)[k as int]);
            return false;
        }
        k = k + 1;
    }
    assert(ascii_lower(a@) =~= ascii_lower(b@));
    true
}

/// A number in decimal notation.
pub fn decimal_text(n: u64) -> (text: String)
    ensures
        text@ == decimal(n as nat),
    decreases n,
{
    let mut text = if n < 10 {
        String::new()
    } else {
        decimal_text(n / 10)
    };
    text.push((48u8 + (n % 10) as u8) as char);
    assert(n < 10 ==> text@ =~= decimal(n as nat));
    text
}

/// The characters of a list of texts are those of each text in turn.
pub proof fn law_views_are_pointwise(texts: Seq<String>, text: Option<String>)
    ensures
        views(texts).len() == texts.len(),
        forall|i: int| 0 <= i < texts.len() ==> #[trigger] views(texts)[i] == texts[i]@,
        text matches Some(t) ==> opt_view(text) == Some(t@),
        text is None ==> opt_view(text) is None,
{
}

/// Nothing joined is nothing, one text joined is that text, and a text in front of others is followed
/// by the separator and by the others joined.
pub proof fn law_joining_goes_from_front_to_back(
    front: Seq<char>,
    pieces: Seq<Seq<char>>,
    separator: Seq<char>,
)
    ensures
        join(Seq::<Seq<char>>::empty(), separator) == Seq::<char>::empty(),
        join(seq![front], separator) == front,
        pieces.len() > 0 ==> join(seq![front] + pieces, separator) == front + separator + join(
            pieces,
            separator,
        ),
{
    if pieces.len() > 0 {
        lemma_join_of_front(front, pieces, separator);
    }
}

/// A text is split in the one way in which no piece holds the separator and the pieces give the text
/// back when they are joined by it.
pub proof fn law_splitting_has_one_answer(s: Seq<char>, separator: char, pieces: Seq<Seq<char>>)
    ensures
        split(s, separator).len() > 0,
        forall|i: int|
            0 <= i < split(s, separator).len() ==> !(#[trigger] split(s, separator)[i]).contains(
                separator,
            ),
        join(split(s, separator), seq![separator]) == s,
        pieces.len() > 0 && join(pieces, seq![separator]) == s && (forall|i: int|
            0 <= i < pieces.len() ==> !(#[trigger] pieces[i]).contains(separator)) ==> split(
            s,
            separator,
        ) == pieces,
{
    lemma_split_has_a_piece(s, separator);
    lemma_pieces_are_free(s, separator);
    lemma_join_of_split(s, separator);
    if pieces.len() > 0 && join(pieces, seq![separator]) == s && (forall|i: int|
        0 <= i < pieces.len() ==> !(#[trigger] pieces[i]).contains(separator)) {
        lemma_split_of_join(pieces, separator);
    }
}

/// What stands in front of the first separator is the first piece.
pub proof fn lemma_first_piece(front: Seq<char>, separator: char, rest: Seq<char>)
    requires
        !front.contains(separator),
    ensures
        split(front.push(separator) + rest, separator).len() > 1,
        split(front.push(separator) + rest, separator)[0] == front,
    decreases rest.len(),
{
    let whole = front.push(separator) + rest;
    if rest.len() == 0 {
        assert(whole =~= front.push(separator));
        assert(whole.drop_last() =~= front);
        lemma_split_of_free(front, separator);
    } else {
        lemma_first_piece(front, separator, rest.drop_last());
        assert(whole.drop_last() =~= front.push(separator) + rest.drop_last());
    }
}

/// Where a pattern first stands between two texts, what replaces it stands between them instead.
pub proof fn law_the_first_occurrence_is_replaced(
    front: Seq<char>,
    pattern: Seq<char>,
    back: Seq<char>,
    with: Seq<char>,
)
    requires
        forall|j: int|
            0 <= j < front.len() ==> #[trigger] (front + pattern + back).subrange(
                j,
                j + pattern.len(),
            ) != pattern,
    ensures
        replace_first(front + pattern + back, pattern, with) == front + with + back,
{
    let s = front + pattern + back;
    let i = front.len() as int;
    assert(s.subrange(i, i + pattern.len()) =~= pattern);
    assert forall|j: int| 0 <= j < i implies !occurs_at(s, pattern, j) by {
        assert(s.subrange(j, j + pattern.len()) != pattern);
    }
    lemma_find_is(s, pattern, i);
    assert(s.subrange(0, i) =~= front);
    assert(s.subrange(i + pattern.len(), s.len() as int) =~= back);
}

/// A text in which a pattern does not stand is left as it is.
pub proof fn law_nothing_else_is_replaced(s: Seq<char>, pattern: Seq<char>, with: Seq<char>)
    requires
        forall|j: int|
            0 <= j <= s.len() - pattern.len() ==> #[trigger] s.subrange(j, j + pattern.len())
                != pattern,
    ensures
        replace_first(s, pattern, with) == s,
{
    assert forall|j: int| !first_at(s, pattern, j) by {
        if occurs_at(s, pattern, j) {
            assert(s.subrange(j, j + pattern.len()) != pattern);
        }
    }
}

/// A character that is searched for stands at no place of a text that does not hold it.
pub proof fn lemma_absent_char(s: Seq<char>, c: char)
    requires
        !s.contains(c),
    ensures
        forall|j: int| 0 <= j <= s.len() - 1 ==> #[trigger] s.subrange(j, j + 1) != seq![c],
{
    assert forall|j: int| 0 <= j <= s.len() - 1 implies #[trigger] s.subrange(j, j + 1)
        != seq![c] by {
        assert(s.subrange(j, j + 1)[0] == s[j]);
        assert(s.contains(s[j]));
    }
}

/// Whether a text is nothing but white space.
pub open spec fn is_blank(s: Seq<char>) -> bool {
    forall|i: int| 0 <= i < s.len() ==> is_white_space(#[trigger] s[i])
}

/// Whether a text has no white space at its ends.
pub open spec fn is_tight(s: Seq<char>) -> bool {
    s.len() > 0 ==> !is_white_space(s[0]) && !is_white_space(s[s.len() - 1])
}

proof fn lemma_trim_start_of_padded(left: Seq<char>, rest: Seq<char>)
    requires
        is_blank(left),
    ensures
        trim_start(left + rest) == trim_start(rest),
    decreases left.len(),
{
    if left.len() == 0 {
        assert(left + rest =~= rest);
    } else {
        assert(is_white_space(left[0]));
        assert forall|i: int| 0 <= i < left.drop_first().len() implies is_white_space(
            #[trigger] left.drop_first()[i],
        ) by {
            assert(is_white_space(left[i + 1]));
        }
        lemma_trim_start_of_padded(left.drop_first(), rest);
        assert((left + rest).drop_first() =~= left.drop_first() + rest);
    }
}

proof fn lemma_trim_end_of_padded(rest: Seq<char>, right: Seq<char>)
    requires
        is_blank(right),
    ensures
        trim_end(rest + right) == trim_end(rest),
    decreases right.len(),
{
    if right.len() == 0 {
        assert(rest + right =~= rest);
    } else {
        assert(is_white_space(right[right.len() - 1]));
        assert forall|i: int| 0 <= i < right.drop_last().len() implies is_white_space(
            #[trigger] right.drop_last()[i],
        ) by {
            assert(is_white_space(right[i]));
        }
        lemma_trim_end_of_padded(rest, right.drop_last());
        assert((rest + right).drop_last() =~= rest + right.drop_last());
    }
}

/// White space around a text is all that trimming takes away.
pub proof fn law_trimming_takes_the_space_around(
    left: Seq<char>,
    middle: Seq<char>,
    right: Seq<char>,
)
    requires
        is_blank(left),
        is_tight(middle),
        is_blank(right),
    ensures
        trim(left + middle + right) == middle,
{
    let whole = left + middle + right;
    assert(whole =~= left + (middle + right));
    lemma_trim_start_of_padded(left, middle + right);
    if middle.len() == 0 {
        assert(middle + right =~= right + middle);
        lemma_trim_start_of_padded(right, middle);
        assert(middle =~= Seq::<char>::empty());
    } else {
        assert((middle + right).first() == middle[0]);
        lemma_trim_end_of_padded(middle, right);
    }
}

/// Lower case moves the ASCII capitals by 32 places and leaves every other character.
pub proof fn law_lower_case_is_for_capitals(s: Seq<char>)
    ensures
        ascii_lower(s).len() == s.len(),
        forall|i: int|
            0 <= i < s.len() ==> if 'A' <= s[i] <= 'Z' {
                #[trigger] ascii_lower(s)[i] as u32 == s[i] as u32 + 32
            } else {
                ascii_lower(s)[i] == s[i]
            },
{
}

/// The number that decimal digits write.
pub open spec fn number_of(digits: Seq<char>) -> int
    decreases digits.len(),
{
    if digits.len() == 0 {
        0
    } else {
        10 * number_of(digits.drop_last()) + (digits.last() as int - '0' as int)
    }
}

/// A number in decimal notation is made of digits, does not begin with a zero unless it is zero, and
/// reads back as the number.
pub proof fn law_decimals_read_back(n: nat)
    ensures
        number_of(decimal(n)) == n,
        decimal(n).len() > 0,
        forall|i: int| 0 <= i < decimal(n).len() ==> '0' <= #[trigger] decimal(n)[i] <= '9',
        n > 0 ==> decimal(n)[0] != '0',
        n == 0 ==> decimal(n) == seq!['0'],
    decreases n,
{
    if n >= 10 {
        law_decimals_read_back(n / 10);
        assert(decimal(n).drop_last() =~= decimal(n / 10));
    } else {
        assert(decimal(n).drop_last() =~= Seq::<char>::empty());
        reveal_with_fuel(number_of, 2);
    }
}

/// White space is the tab and the other controls that move the writing position, the space, the next
/// line and the no-break space, and the spaces and separators beyond Latin; no other character is.
pub proof fn law_white_space_characters(c: char)
    ensures
        is_white_space(c) <==> ('\t' <= c <= '\r' || c == ' ' || c == '\u{85}' || c == '\u{a0}' || c
            == '\u{1680}' || '\u{2000}' <= c <= '\u{200a}' || c == '\u{2028}' || c == '\u{2029}'
            || c == '\u{202f}' || c == '\u{205f}' || c == '\u{3000}'),
{
}

} // verus!
