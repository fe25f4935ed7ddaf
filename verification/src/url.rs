//! URLs.

use vstd::prelude::*;

use crate::text;

verus! {

broadcast use vstd::string::group_string_axioms;

/// `s` without its null characters.
pub open spec fn without_nulls(s: Seq<char>) -> Seq<char> {
    s.filter(|c: char| c != '\0')
}

/// Whether a byte stands for itself in a URL: letters, digits, `-`, `.`, `_` and `~` do.
pub open spec fn is_unreserved(b: u8) -> bool {
    ||| 0x30 <= b <= 0x39
    ||| 0x41 <= b <= 0x5a
    ||| 0x61 <= b <= 0x7a
    ||| b == 0x2d
    ||| b == 0x2e
    ||| b == 0x5f
    ||| b == 0x7e
}

/// The character of a hexadecimal digit, in upper case.
pub open spec fn hex_char(d: u8) -> char {
    if d < 10 {
        (0x30 + d) as char
    } else {
        (0x37 + d) as char
    }
}

/// A byte as it is written in a URL.
pub open spec fn encoded_byte(b: u8) -> Seq<char> {
    if is_unreserved(b) {
        seq![b as char]
    } else {
        seq!['%', hex_char(b / 16), hex_char(b % 16)]
    }
}

/// Bytes as they are written in a URL.
pub open spec fn percent_encoded(bytes: Seq<u8>) -> Seq<char>
    decreases bytes.len(),
{
    if bytes.len() == 0 {
        Seq::<char>::empty()
    } else {
        encoded_byte(bytes.first()) + percent_encoded(bytes.drop_first())
    }
}

/// A part of a URL, percent-encoded.
pub open spec fn encoded_part(part: Seq<char>) -> Seq<char> {
    percent_encoded(vstd::utf8::encode_utf8(part))
}

/// Where the protocol of a URL ends: after the first `://`, or at the start where there is none.
pub open spec fn protocol_end(url: Seq<char>) -> int {
    match text::find(url, "://"@) {
        Some(i) => i + 3,
        None => 0,
    }
}

/// The protocol of a URL, with the `://` after it.
pub open spec fn protocol(url: Seq<char>) -> Seq<char> {
    url.take(protocol_end(url))
}

/// The parts of a URL after its protocol, between the slashes.
pub open spec fn parts(url: Seq<char>) -> Seq<Seq<char>> {
    text::split(url.skip(protocol_end(url)), '/')
}

/// The parts of a URL after its protocol, percent-encoded.
pub open spec fn encoded_parts(url: Seq<char>) -> Seq<Seq<char>> {
    parts(url).map_values(|p: Seq<char>| encoded_part(p))
}

/// A URL with every part after its protocol percent-encoded.
pub open spec fn urlencoded(url: Seq<char>) -> Seq<char> {
    protocol(url) + text::join(encoded_parts(url), "/"@)
}

/// `urlencoding::encode` writes a text in UTF-8, with every byte but letters, digits, `-`, `.`, `_`
/// and `~` as a percent sign and two hexadecimal digits in upper case.
#[verifier::external_body]
fn encode(part: &str) -> (encoded: String)
    ensures
        encoded@ == encoded_part(part@),
{
    urlencoding::encode(part).into_owned()
}

/// A text without its null characters.
pub fn strip_null(s: &str) -> (stripped: String)
    ensures
        stripped@ == without_nulls(s@),
{
    let chars = text::to_chars(s);
    let mut stripped = String::new();
    let mut i: usize = 0;
    assert(without_nulls(chars@.take(0)) =~= Seq::<char>::empty()) by {
        reveal(Seq::filter);
    }
    while i < chars.len()
        invariant
            i <= chars@.len(),
            stripped@ == without_nulls(chars@.take(i as int)),
        decreases chars@.len() - i,
    {
        let c = chars[i];
        proof {
            chars@.take(i as int).lemma_filter_push(c, |c: char| c != '\0');
        }
        assert(chars@.take(i + 1) =~= chars@.take(i as int).push(c));
        if c != '\0' {
            stripped.push(c);
        }
        i = i + 1;
    }
    assert(chars@.take(i as int) =~= s@);
    stripped
}

/// A URL with every part after its protocol percent-encoded.
pub fn urlencode(url: &str) -> (encoded: String)
    ensures
        encoded@ == urlencoded(url@),
{
    let chars = text::to_chars(url);
    let mark = text::to_chars("://");
    let length: usize = chars.len();
    proof {
        reveal_strlit("://");
    }
    let end: usize = match text::find_chars(&chars, &mark) {
        Some(i) => i + 3,
        None => 0,
    };
    assert(end == protocol_end(url@));
    let mut encoded = text::to_text(&chars, 0, end);
    assert(encoded@ =~= protocol(url@));
    let rest = text::to_text(&chars, end, length);
    assert(rest@ =~= url@.skip(end as int));
    let pieces = text::split_text(rest.as_str(), '/');
    let mut coded: Vec<String> = Vec::new();
    let mut i: usize = 0;
    while i < pieces.len()
        invariant
            i <= pieces@.len(),
            coded@.len() == i,
            text::views(pieces@) == parts(url@),
            forall|k: int| 0 <= k < i ==> (#[trigger] coded@[k])@ == encoded_part(parts(url@)[k]),
        decreases pieces@.len() - i,
    {
        assert(text::views(pieces@)[i as int] == pieces@[i as int]@);
        coded.push(encode(pieces[i].as_str()));
        i = i + 1;
    }
    assert(text::views(pieces@).len() == pieces@.len());
    assert(text::views(coded@) =~= encoded_parts(url@));
    encoded.append(text::join_texts(&coded, "/").as_str());
    encoded
}

/// Whether a character stands for itself in a URL.
pub open spec fn is_plain(c: char) -> bool {
    c <= '\u{7f}' && is_unreserved(c as u8)
}

/// A character that stands for itself is an ASCII character.
proof fn lemma_plain_is_ascii(c: char)
    requires
        is_plain(c),
    ensures
        '\0' <= c <= '\u{7f}',
{
}

/// The characters of a percent-encoded text stand for themselves or are percent signs.
proof fn lemma_alphabet(bytes: Seq<u8>)
    ensures
        forall|i: int|
            0 <= i < percent_encoded(bytes).len() ==> is_plain(#[trigger] percent_encoded(bytes)[i])
                || percent_encoded(bytes)[i] == '%',
    decreases bytes.len(),
{
    if bytes.len() > 0 {
        lemma_alphabet(bytes.drop_first());
        let b = bytes.first();
        let start = encoded_byte(b);
        assert(is_plain(hex_char(b / 16)) && is_plain(hex_char(b % 16)));
        assert forall|i: int| 0 <= i < percent_encoded(bytes).len() implies is_plain(
            #[trigger] percent_encoded(bytes)[i],
        ) || percent_encoded(bytes)[i] == '%' by {
            if i >= start.len() {
                assert(percent_encoded(bytes)[i] == percent_encoded(bytes.drop_first())[i
                    - start.len()]);
            }
        }
    }
}

/// What is percent-encoded holds nothing but characters that stand for themselves and percent
/// signs.
pub proof fn law_encoded_alphabet(part: Seq<char>)
    ensures
        forall|i: int|
            0 <= i < encoded_part(part).len() ==> is_plain(#[trigger] encoded_part(part)[i])
                || encoded_part(part)[i] == '%',
{
    lemma_alphabet(vstd::utf8::encode_utf8(part));
}

/// Joining adds no character but the separator.
proof fn lemma_join_stays_free(pieces: Seq<Seq<char>>, separator: char, c: char)
    requires
        c != separator,
        forall|i: int| 0 <= i < pieces.len() ==> !(#[trigger] pieces[i]).contains(c),
    ensures
        !text::join(pieces, seq![separator]).contains(c),
    decreases pieces.len(),
{
    if pieces.len() == 1 {
        assert(!pieces[0].contains(c));
    } else if pieces.len() > 1 {
        let first = pieces.drop_last();
        assert forall|i: int| 0 <= i < first.len() implies !(#[trigger] first[i]).contains(c) by {
            assert(first[i] == pieces[i]);
        }
        lemma_join_stays_free(first, separator, c);
        let start = text::join(first, seq![separator]);
        let last = pieces[pieces.len() - 1];
        let whole = start + seq![separator] + last;
        assert forall|k: int| 0 <= k < whole.len() implies whole[k] != c by {
            if k < start.len() {
                assert(start.contains(start[k]));
            } else if k > start.len() {
                assert(last.contains(last[k - start.len() - 1]));
            }
        }
    }
}

/// The encoded parts of a URL, with slashes between them, hold no colon.
proof fn lemma_rest_holds_no_colon(url: Seq<char>)
    ensures
        !text::join(encoded_parts(url), "/"@).contains(':'),
{
    let coded = encoded_parts(url);
    assert forall|i: int| 0 <= i < coded.len() implies !(#[trigger] coded[i]).contains(':') by {
        law_encoded_alphabet(parts(url)[i]);
    }
    reveal_strlit("/");
    assert("/"@ =~= seq!['/']);
    lemma_join_stays_free(coded, '/', ':');
}

/// An encoded URL has the protocol of the URL.
proof fn lemma_protocol_survives(url: Seq<char>)
    ensures
        protocol_end(urlencoded(url)) == protocol_end(url),
        protocol_end(url) <= url.len(),
{
    let mark = "://"@;
    let rest = text::join(encoded_parts(url), "/"@);
    let encoded = urlencoded(url);
    reveal_strlit("://");
    match text::find(url, mark) {
        Some(i) => {
            assert(text::first_at(url, mark, i));
            assert(encoded.subrange(i, i + 3) =~= url.subrange(i, i + 3));
            assert forall|j: int| 0 <= j < i implies !text::occurs_at(encoded, mark, j) by {
                assert(!text::occurs_at(url, mark, j));
                assert(encoded.subrange(j, j + 3) =~= url.subrange(j, j + 3));
            }
            text::lemma_find_is(encoded, mark, i);
        },
        None => {
            lemma_rest_holds_no_colon(url);
            assert(encoded =~= rest);
            assert forall|j: int| !text::first_at(encoded, mark, j) by {
                if text::occurs_at(encoded, mark, j) {
                    assert(encoded.subrange(j, j + 3)[0] == ':');
                    assert(rest[j] == ':');
                }
            }
        },
    }
}

/// An encoded URL has the protocol of the URL and as many parts, which are the encoded ones.
pub proof fn law_parts_survive(url: Seq<char>)
    ensures
        protocol(urlencoded(url)) == protocol(url),
        parts(urlencoded(url)) == encoded_parts(url),
        encoded_parts(url).len() == parts(url).len(),
{
    let coded = encoded_parts(url);
    let rest = text::join(coded, "/"@);
    text::lemma_split_has_a_piece(url.skip(protocol_end(url)), '/');
    assert forall|i: int| 0 <= i < coded.len() implies !(#[trigger] coded[i]).contains('/') by {
        law_encoded_alphabet(parts(url)[i]);
    }
    reveal_strlit("/");
    assert("/"@ =~= seq!['/']);
    text::lemma_split_of_join(coded, '/');
    lemma_protocol_survives(url);
    reveal_strlit("://");
    let end = protocol_end(url);
    assert(urlencoded(url).take(end) =~= protocol(url));
    assert(urlencoded(url).skip(end) =~= rest);
}

/// Bytes that stand for themselves are encoded as themselves.
proof fn lemma_plain_bytes(bytes: Seq<u8>)
    requires
        forall|i: int| 0 <= i < bytes.len() ==> is_unreserved(#[trigger] bytes[i]),
    ensures
        percent_encoded(bytes) == bytes.map_values(|b: u8| b as char),
    decreases bytes.len(),
{
    if bytes.len() == 0 {
        assert(percent_encoded(bytes) =~= bytes.map_values(|b: u8| b as char));
    } else {
        assert forall|i: int| 0 <= i < bytes.drop_first().len() implies is_unreserved(
            #[trigger] bytes.drop_first()[i],
        ) by {
            assert(is_unreserved(bytes[i + 1]));
        }
        lemma_plain_bytes(bytes.drop_first());
        assert(is_unreserved(bytes[0]));
        assert(percent_encoded(bytes) =~= bytes.map_values(|b: u8| b as char));
    }
}

/// A part made of characters that stand for themselves is encoded as itself.
proof fn lemma_plain_part(part: Seq<char>)
    requires
        forall|i: int| 0 <= i < part.len() ==> is_plain(#[trigger] part[i]),
    ensures
        encoded_part(part) == part,
{
    let bytes = vstd::utf8::encode_utf8(part);
    assert forall|i: int| 0 <= i < part.len() implies '\0' <= #[trigger] part[i] <= '\u{7f}' by {
        assert(is_plain(part[i]));
        lemma_plain_is_ascii(part[i]);
    }
    vstd::utf8::is_ascii_chars_encode_utf8(part);
    assert forall|i: int| 0 <= i < bytes.len() implies is_unreserved(#[trigger] bytes[i]) by {
        assert(is_plain(part[i]));
        assert(part[i] as u8 == bytes[i]);
    }
    lemma_plain_bytes(bytes);
    assert forall|i: int| 0 <= i < part.len() implies #[trigger] encoded_part(part)[i]
        == part[i] by {
        assert(is_plain(part[i]));
        assert(part[i] as u8 == bytes[i]);
    }
    assert(encoded_part(part) =~= part);
}

/// A URL whose characters after the protocol are slashes and characters that stand for themselves
/// stays as it is.
pub proof fn law_plain_urls_stay(url: Seq<char>)
    requires
        forall|i: int|
            protocol_end(url) <= i < url.len() ==> (#[trigger] url[i] == '/' || is_plain(url[i])),
    ensures
        urlencoded(url) == url,
{
    let end = protocol_end(url);
    reveal_strlit("://");
    let rest = url.skip(end);
    text::lemma_pieces_come_from(rest, '/');
    text::lemma_pieces_are_free(rest, '/');
    assert forall|i: int| 0 <= i < parts(url).len() implies #[trigger] encoded_part(parts(url)[i])
        == parts(url)[i] by {
        let part = parts(url)[i];
        assert forall|k: int| 0 <= k < part.len() implies is_plain(#[trigger] part[k]) by {
            assert(part.contains(part[k]));
            let m = choose|m: int| 0 <= m < rest.len() && rest[m] == part[k];
            assert(rest[m] == url[m + end]);
        }
        lemma_plain_part(part);
    }
    assert(encoded_parts(url) =~= parts(url));
    reveal_strlit("/");
    assert("/"@ =~= seq!['/']);
    text::lemma_join_of_split(rest, '/');
    assert(protocol(url) + rest =~= url);
}

/// Different bytes are encoded differently.
proof fn lemma_encoding_of_bytes_is_injective(a: Seq<u8>, b: Seq<u8>)
    requires
        percent_encoded(a) == percent_encoded(b),
    ensures
        a == b,
    decreases a.len(),
{
    if a.len() == 0 || b.len() == 0 {
        assert(a.len() == 0 ==> percent_encoded(a).len() == 0);
        assert(b.len() == 0 ==> percent_encoded(b).len() == 0);
        assert(a =~= b);
    } else {
        let x = a.first();
        let y = b.first();
        let u = percent_encoded(a);
        let start = encoded_byte(x).len() as int;
        assert(u[0] == encoded_byte(x)[0]);
        assert(u[0] == encoded_byte(y)[0]);
        assert(!is_unreserved(x) ==> u[1] == hex_char(x / 16) && u[2] == hex_char(x % 16));
        assert(!is_unreserved(y) ==> u[1] == hex_char(y / 16) && u[2] == hex_char(y % 16));
        assert(x == y);
        assert(u.skip(start) =~= percent_encoded(a.drop_first()));
        assert(percent_encoded(b).skip(start) =~= percent_encoded(b.drop_first()));
        lemma_encoding_of_bytes_is_injective(a.drop_first(), b.drop_first());
        assert(a =~= seq![x] + a.drop_first());
        assert(b =~= seq![y] + b.drop_first());
    }
}

/// Different parts are encoded differently.
pub proof fn law_encoding_loses_nothing(a: Seq<char>, b: Seq<char>)
    requires
        encoded_part(a) == encoded_part(b),
    ensures
        a == b,
{
    lemma_encoding_of_bytes_is_injective(
        vstd::utf8::encode_utf8(a),
        vstd::utf8::encode_utf8(b),
    );
    vstd::utf8::encode_utf8_decode_utf8(a);
    vstd::utf8::encode_utf8_decode_utf8(b);
}

/// Different URLs are encoded differently.
pub proof fn law_encoded_urls_stay_different(a: Seq<char>, b: Seq<char>)
    requires
        urlencoded(a) == urlencoded(b),
    ensures
        a == b,
{
    law_parts_survive(a);
    law_parts_survive(b);
    assert forall|i: int| 0 <= i < parts(a).len() implies parts(a)[i] == parts(b)[i] by {
        assert(encoded_parts(a)[i] == encoded_part(parts(a)[i]));
        assert(encoded_parts(b)[i] == encoded_part(parts(b)[i]));
        law_encoding_loses_nothing(parts(a)[i], parts(b)[i]);
    }
    assert(parts(a) =~= parts(b));
    text::lemma_join_of_split(a.skip(protocol_end(a)), '/');
    text::lemma_join_of_split(b.skip(protocol_end(b)), '/');
    lemma_protocol_survives(a);
    lemma_protocol_survives(b);
    reveal_strlit("://");
    assert(protocol(a) + a.skip(protocol_end(a)) =~= a);
    assert(protocol(b) + b.skip(protocol_end(b)) =~= b);
}

/// No null character is left, and nothing more is taken out a second time.
pub proof fn law_stripping_is_complete(s: Seq<char>)
    ensures
        !without_nulls(s).contains('\0'),
        without_nulls(without_nulls(s)) == without_nulls(s),
{
    broadcast use vstd::seq_lib::group_filter_ensures;

    let once = without_nulls(s);
    assert forall|i: int| 0 <= i < once.len() implies once[i] != '\0' by {
        s.lemma_filter_pred(|c: char| c != '\0', i);
    }
    text::lemma_filter_of_kept(once, |c: char| c != '\0');
}

/// Null characters are all that is taken out: what stands beside them stays, in order.
pub proof fn law_only_nulls_are_stripped(a: Seq<char>, b: Seq<char>)
    ensures
        !a.contains('\0') ==> without_nulls(a) == a,
        without_nulls(a + b) == without_nulls(a) + without_nulls(b),
        without_nulls(a.push('\0') + b) == without_nulls(a) + without_nulls(b),
{
    let kept = |c: char| c != '\0';
    Seq::filter_distributes_over_add(a, b, kept);
    Seq::filter_distributes_over_add(a.push('\0'), b, kept);
    a.lemma_filter_push('\0', kept);
    if !a.contains('\0') {
        assert forall|i: int| 0 <= i < a.len() implies kept(#[trigger] a[i]) by {
            assert(a.contains(a[i]));
        }
        text::lemma_filter_of_kept(a, kept);
    }
}

/// Letters, digits and the signs `-`, `.`, `_` and `~` are the characters that stand for themselves.
pub proof fn law_plain_characters(c: char)
    ensures
        is_plain(c) <==> ('a' <= c <= 'z' || 'A' <= c <= 'Z' || '0' <= c <= '9' || c == '-' || c
            == '.' || c == '_' || c == '~'),
{
}

/// The value of a hexadecimal digit in upper case.
pub open spec fn hex_value(c: char) -> int {
    if '0' <= c <= '9' {
        c as int - '0' as int
    } else {
        c as int - 'A' as int + 10
    }
}

/// Whether a character is a hexadecimal digit in upper case.
pub open spec fn is_hex(c: char) -> bool {
    '0' <= c <= '9' || 'A' <= c <= 'F'
}

/// A byte of a character that stands for itself is encoded as that character, and every other byte as
/// a percent sign and the two hexadecimal digits of the byte.
pub proof fn law_bytes_are_encoded_one_by_one(b: u8, rest: Seq<u8>)
    ensures
        percent_encoded(Seq::<u8>::empty()) == Seq::<char>::empty(),
        percent_encoded(seq![b] + rest) == encoded_byte(b) + percent_encoded(rest),
        b < 0x80 && is_plain(b as char) ==> encoded_byte(b) == seq![b as char],
        !(b < 0x80 && is_plain(b as char)) ==> {
            &&& encoded_byte(b).len() == 3
            &&& encoded_byte(b)[0] == '%'
            &&& is_hex(encoded_byte(b)[1])
            &&& is_hex(encoded_byte(b)[2])
            &&& 16 * hex_value(encoded_byte(b)[1]) + hex_value(encoded_byte(b)[2]) == b
        },
{
    assert((seq![b] + rest).drop_first() =~= rest);
}

/// The parts of a URL between its slashes are encoded one by one, each in UTF-8; the slashes, and all
/// up to the first `://`, stay.
pub proof fn law_urls_are_encoded_part_by_part(front: Seq<char>, pieces: Seq<Seq<char>>)
    requires
        pieces.len() > 0,
        forall|i: int| 0 <= i < pieces.len() ==> !(#[trigger] pieces[i]).contains('/'),
    ensures
        ({
            let mark = seq![':', '/', '/'];
            let rest = text::join(pieces, seq!['/']);
            let coded = text::join(
                pieces.map_values(|p: Seq<char>| percent_encoded(vstd::utf8::encode_utf8(p))),
                seq!['/'],
            );
            let url = front + mark + rest;
            &&& (forall|j: int|
                0 <= j < front.len() ==> #[trigger] url.subrange(j, j + 3) != mark) ==> urlencoded(
                url,
            ) == front + mark + coded
            &&& (forall|j: int|
                0 <= j <= rest.len() - 3 ==> #[trigger] rest.subrange(j, j + 3) != mark)
                ==> urlencoded(rest) == coded
        }),
{
    let mark = seq![':', '/', '/'];
    let rest = text::join(pieces, seq!['/']);
    let url = front + mark + rest;
    let n = front.len() as int;
    let mapped = pieces.map_values(|p: Seq<char>| percent_encoded(vstd::utf8::encode_utf8(p)));
    let coded = text::join(mapped, seq!['/']);
    reveal_strlit("://");
    reveal_strlit("/");
    assert("://"@ =~= mark);
    assert("/"@ =~= seq!['/']);
    text::lemma_split_of_join(pieces, '/');
    assert(pieces.map_values(|p: Seq<char>| encoded_part(p)) =~= mapped);
    if forall|j: int| 0 <= j < front.len() ==> #[trigger] url.subrange(j, j + 3) != mark {
        assert(url.subrange(n, n + 3) =~= mark);
        assert forall|j: int| 0 <= j < n implies !text::occurs_at(url, mark, j) by {
            assert(url.subrange(j, j + 3) != mark);
        }
        text::lemma_find_is(url, mark, n);
        assert(url.skip(n + 3) =~= rest);
        assert(url.take(n + 3) =~= front + mark);
        assert(urlencoded(url) =~= front + mark + coded);
    }
    if forall|j: int| 0 <= j <= rest.len() - 3 ==> #[trigger] rest.subrange(j, j + 3) != mark {
        assert forall|j: int| !text::first_at(rest, mark, j) by {
            if text::occurs_at(rest, mark, j) {
                assert(rest.subrange(j, j + 3) != mark);
            }
        }
        assert(rest.skip(0) =~= rest);
        assert(urlencoded(rest) =~= coded);
    }
}

} // verus!
