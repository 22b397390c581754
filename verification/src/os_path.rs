//! Paths of the host as texts.
//!
//! A path of the host is a row of bytes other than zero, and need not be UTF-8. A path that is
//! UTF-8 stands for itself. In any other one each byte that is not ASCII is written as the zero
//! character and two letters, one for each half of the byte. No path of the host holds a zero, so
//! no two paths have the same text, and separators are left as they are.

use vstd::prelude::*;
use vstd::string::StrSliceExecFns;
use vstd::string::StringExecFns;
use vstd::utf8::{
    decode_utf8, decode_utf8_encode_utf8, encode_scalar, encode_utf8, encode_utf8_decode_utf8,
    encode_utf8_valid_utf8, is_ascii_chars, is_ascii_chars_encode_utf8, is_scalar,
    last_continuation_byte, valid_utf8,
};

use crate::path::join_of;
use crate::text::{text_of_bytes, utf8_lossy};

verus! {

/// The letter for half a byte: `a` for 0 to `p` for 15.
pub open spec fn half_letter(half: int) -> char {
    (('a' as int) + half) as char
}

/// The half of a byte that a letter stands for.
pub open spec fn half_of(letter: char) -> int {
    (letter as int) - ('a' as int)
}

/// How one byte of a path that is not UTF-8 is written.
pub open spec fn written_byte(b: u8) -> Seq<char> {
    if b < 0x80 {
        seq![b as char]
    } else {
        seq!['\0', half_letter(b as int / 16), half_letter(b as int % 16)]
    }
}

/// How the bytes of a path that is not UTF-8 are written.
pub open spec fn written(bytes: Seq<u8>) -> Seq<char>
    decreases bytes.len(),
{
    if bytes.len() == 0 {
        Seq::empty()
    } else {
        written_byte(bytes.first()) + written(bytes.drop_first())
    }
}

/// The text of a path.
pub open spec fn path_text_of(bytes: Seq<u8>) -> Seq<char> {
    if valid_utf8(bytes) {
        decode_utf8(bytes)
    } else {
        written(bytes)
    }
}

/// Whether a text starts with a byte that is written out.
pub open spec fn starts_written(text: Seq<char>) -> bool {
    &&& text.len() >= 3
    &&& text[0] == '\0'
    &&& 'a' <= text[1] <= 'p'
    &&& 'a' <= text[2] <= 'p'
}

/// The bytes of the path that a text stands for.
pub open spec fn path_bytes_of(text: Seq<char>) -> Seq<u8>
    decreases text.len(),
{
    if text.len() == 0 {
        Seq::empty()
    } else if starts_written(text) {
        seq![(16 * half_of(text[1]) + half_of(text[2])) as u8] + path_bytes_of(text.skip(3))
    } else {
        encode_scalar(text[0] as u32) + path_bytes_of(text.drop_first())
    }
}

/// The text of a path as a user sees it: what is not UTF-8 is replaced.
pub open spec fn shown_of(text: Seq<char>) -> Seq<char> {
    if text.contains('\0') {
        utf8_lossy(path_bytes_of(text))
    } else {
        text
    }
}

/// A text of one ASCII character.
fn ascii_text(b: u8) -> (text: String)
    requires
        b < 0x80,
    ensures
        text@ == seq![b as char],
{
    let bytes: Vec<u8> = vec![b];
    proof {
        let chars = seq![b as char];
        assert(is_ascii_chars(chars));
        is_ascii_chars_encode_utf8(chars);
        assert(encode_utf8(chars) =~= bytes@);
        encode_utf8_valid_utf8(chars);
        encode_utf8_decode_utf8(chars);
    }
    text_of_bytes(bytes.as_slice())
}

fn same_bytes(a: &[u8], b: &[u8]) -> (same: bool)
    ensures
        same == (a@ == b@),
{
    if a.len() != b.len() {
        return false;
    }
    let mut i: usize = 0;
    while i < a.len()
        invariant
            i <= a.len(),
            a.len() == b.len(),
            forall|j: int| 0 <= j < i ==> a@[j] == b@[j],
        decreases a.len() - i,
    {
        if a[i] != b[i] {
            return false;
        }
        i += 1;
    }
    assert(a@ =~= b@);
    true
}

fn write_out(bytes: &[u8]) -> (text: String)
    ensures
        text@ == written(bytes@),
{
    let mut text = String::new();
    let mut i: usize = 0;
    assert(bytes@.skip(0) =~= bytes@);
    while i < bytes.len()
        invariant
            i <= bytes.len(),
            written(bytes@) == text@ + written(bytes@.skip(i as int)),
        decreases bytes.len() - i,
    {
        let b = bytes[i];
        let ghost before = text@;
        if b < 0x80 {
            text.append(ascii_text(b).as_str());
        } else {
            text.append("\0");
            text.append(ascii_text(0x61 + b / 16).as_str());
            text.append(ascii_text(0x61 + b % 16).as_str());
        }
        proof {
            reveal_strlit("\0");
            assert("\0"@ =~= seq!['\0']);
            assert(bytes@.skip(i as int).drop_first() =~= bytes@.skip(i + 1));
            assert(text@ =~= before + written_byte(b));
            assert(written(bytes@) =~= text@ + written(bytes@.skip(i + 1)));
        }
        i += 1;
    }
    assert(written(bytes@.skip(i as int)) =~= Seq::empty());
    assert(text@ =~= written(bytes@));
    text
}

/// Writes a path as text.
pub fn path_text(bytes: &Vec<u8>) -> (text: String)
    ensures
        text@ == path_text_of(bytes@),
{
    let text = text_of_bytes(bytes.as_slice());
    let same = same_bytes(text.as_str().as_bytes(), bytes.as_slice());
    proof {
        encode_utf8_valid_utf8(text@);
        encode_utf8_decode_utf8(text@);
        if valid_utf8(bytes@) {
            decode_utf8_encode_utf8(bytes@);
        }
    }
    if same {
        text
    } else {
        write_out(bytes.as_slice())
    }
}

/// Whether the text starts, at `i`, with a byte that is written out.
fn is_written_at(text: &str, i: usize, length: usize) -> (found: bool)
    requires
        length == text@.len(),
        i < length,
    ensures
        found == starts_written(text@.skip(i as int)),
{
    if length - i < 3 || text.get_char(i) != '\0' {
        return false;
    }
    let high = text.get_char(i + 1);
    let low = text.get_char(i + 2);
    'a' <= high && high <= 'p' && 'a' <= low && low <= 'p'
}

/// The bytes of the path that a text stands for.
pub fn path_bytes(text: &str) -> (bytes: Vec<u8>)
    ensures
        bytes@ == path_bytes_of(text@),
{
    let length: usize = text.unicode_len();
    let mut bytes: Vec<u8> = Vec::new();
    let mut i: usize = 0;
    assert(text@.skip(0) =~= text@);
    while i < length
        invariant
            i <= length,
            length == text@.len(),
            path_bytes_of(text@) == bytes@ + path_bytes_of(text@.skip(i as int)),
        decreases length - i,
    {
        let ghost before = bytes@;
        let ghost rest = text@.skip(i as int);
        if is_written_at(text, i, length) {
            let high: u32 = text.get_char(i + 1) as u32 - 0x61;
            let low: u32 = text.get_char(i + 2) as u32 - 0x61;
            bytes.push((16 * high + low) as u8);
            assert(rest.skip(3) =~= text@.skip(i + 3));
            assert(path_bytes_of(text@) =~= bytes@ + path_bytes_of(text@.skip(i + 3)));
            i += 3;
        } else {
            let one = text.substring_char(i, i + 1);
            let mut encoded = one.as_bytes_vec();
            proof {
                assert(one@ =~= seq![rest[0]]);
                assert(one@.drop_first() =~= Seq::empty());
                assert(encode_utf8(one@.drop_first()) =~= Seq::empty());
                assert(encode_utf8(one@) =~= encode_scalar(rest[0] as u32));
                assert(rest.drop_first() =~= text@.skip(i + 1));
            }
            bytes.append(&mut encoded);
            assert(path_bytes_of(text@) =~= bytes@ + path_bytes_of(text@.skip(i + 1)));
            i += 1;
        }
    }
    assert(path_bytes_of(text@.skip(i as int)) =~= Seq::empty());
    assert(bytes@ =~= path_bytes_of(text@));
    bytes
}

/// The text of a path as a user sees it.
pub fn shown(text: &str) -> (seen: String)
    ensures
        seen@ == shown_of(text@),
{
    let length: usize = text.unicode_len();
    let mut i: usize = 0;
    while i < length
        invariant
            i <= length,
            length == text@.len(),
            forall|j: int| 0 <= j < i ==> text@[j] != '\0',
        decreases length - i,
    {
        if text.get_char(i) == '\0' {
            assert(text@.contains('\0'));
            return text_of_bytes(path_bytes(text).as_slice());
        }
        i += 1;
    }
    text.to_string()
}

/// A path comes back from its text as it was.
pub proof fn law_paths_come_back_from_their_texts(bytes: Seq<u8>)
    requires
        forall|i: int| 0 <= i < bytes.len() ==> bytes[i] != 0,
    ensures
        path_bytes_of(path_text_of(bytes)) == bytes,
{
    if valid_utf8(bytes) {
        let text = decode_utf8(bytes);
        decode_utf8_encode_utf8(bytes);
        assert forall|i: int| 0 <= i < text.len() implies text[i] != '\0' by {
            lemma_zero_is_a_zero_byte(text, i);
        }
        lemma_plain_texts_encode_themselves(text);
    } else {
        lemma_written_bytes_come_back(bytes);
    }
}

/// A user sees a path that is UTF-8 as the text that it is, and of any other one what a lenient
/// reading of its bytes gives. A path that is UTF-8 stands for itself.
pub proof fn law_paths_are_shown_as_they_are(bytes: Seq<u8>)
    requires
        forall|i: int| 0 <= i < bytes.len() ==> bytes[i] != 0,
    ensures
        valid_utf8(bytes) ==> path_text_of(bytes) == decode_utf8(bytes) && shown_of(
            path_text_of(bytes),
        ) == decode_utf8(bytes),
        !valid_utf8(bytes) ==> shown_of(path_text_of(bytes)) == utf8_lossy(bytes),
{
    law_paths_come_back_from_their_texts(bytes);
    if valid_utf8(bytes) {
        let text = decode_utf8(bytes);
        decode_utf8_encode_utf8(bytes);
        assert forall|i: int| 0 <= i < text.len() implies text[i] != '\0' by {
            lemma_zero_is_a_zero_byte(text, i);
        }
    } else {
        let chars = bytes.map_values(|b: u8| b as char);
        if forall|i: int| 0 <= i < bytes.len() ==> bytes[i] < 0x80 {
            assert(is_ascii_chars(chars));
            is_ascii_chars_encode_utf8(chars);
            assert(encode_utf8(chars) =~= bytes) by {
                assert forall|i: int| 0 <= i < bytes.len() implies encode_utf8(chars)[i]
                    == bytes[i] by {
                    assert(chars[i] as u8 == bytes[i]);
                }
            }
            encode_utf8_valid_utf8(chars);
        }
        let i = choose|i: int| 0 <= i < bytes.len() && bytes[i] >= 0x80;
        lemma_written_out(bytes, i);
    }
}

/// A byte that is not ASCII is written out.
proof fn lemma_written_out(bytes: Seq<u8>, i: int)
    requires
        0 <= i < bytes.len(),
        bytes[i] >= 0x80,
    ensures
        written(bytes).contains('\0'),
    decreases bytes.len(),
{
    let head = written_byte(bytes.first());
    let rest = written(bytes.drop_first());
    if i == 0 {
        assert(written(bytes)[0] == '\0');
    } else {
        lemma_written_out(bytes.drop_first(), i - 1);
        let j = choose|j: int| 0 <= j < rest.len() && rest[j] == '\0';
        assert(written(bytes)[head.len() + j] == '\0');
    }
}

/// A zero character is encoded as a zero byte.
proof fn lemma_zero_is_a_zero_byte(text: Seq<char>, i: int)
    requires
        0 <= i < text.len(),
    ensures
        text[i] == '\0' ==> exists|j: int|
            0 <= j < encode_utf8(text).len() && #[trigger] encode_utf8(text)[j] == 0,
    decreases text.len(),
{
    let head = encode_scalar(text[0] as u32);
    let tail = encode_utf8(text.drop_first());
    assert(encode_utf8(text) == head + tail);
    if text[i] == '\0' {
        if i == 0 {
            is_ascii_chars_encode_utf8(seq!['\0']);
            assert(seq!['\0'].drop_first() =~= Seq::empty());
            assert(encode_utf8(seq!['\0']) =~= head);
            assert(encode_utf8(text)[0] == 0);
        } else {
            lemma_zero_is_a_zero_byte(text.drop_first(), i - 1);
            let j = choose|j: int| 0 <= j < tail.len() && #[trigger] tail[j] == 0;
            assert(encode_utf8(text)[head.len() + j] == 0);
        }
    }
}

proof fn lemma_plain_texts_encode_themselves(text: Seq<char>)
    requires
        forall|i: int| 0 <= i < text.len() ==> text[i] != '\0',
    ensures
        path_bytes_of(text) == encode_utf8(text),
    decreases text.len(),
{
    if text.len() > 0 {
        lemma_plain_texts_encode_themselves(text.drop_first());
    }
}

proof fn lemma_written_bytes_come_back(bytes: Seq<u8>)
    requires
        forall|i: int| 0 <= i < bytes.len() ==> bytes[i] != 0,
    ensures
        path_bytes_of(written(bytes)) == bytes,
    decreases bytes.len(),
{
    if bytes.len() > 0 {
        let b = bytes.first();
        let rest = written(bytes.drop_first());
        let text = written(bytes);
        lemma_written_bytes_come_back(bytes.drop_first());
        if b < 0x80 {
            assert(!starts_written(text));
            assert(text.drop_first() =~= rest);
            is_ascii_chars_encode_utf8(seq![b as char]);
            assert(seq![b as char].drop_first() =~= Seq::empty());
            assert(encode_utf8(seq![b as char]) =~= encode_scalar(text[0] as u32));
            assert(encode_scalar(text[0] as u32) =~= seq![b]);
        } else {
            assert(starts_written(text));
            assert(text.skip(3) =~= rest);
        }
        assert(path_bytes_of(text) =~= bytes);
    }
}

/// Joining the texts of paths joins the paths: what follows a directory, which may be none that is
/// UTF-8, follows its bytes, with a separator between the two unless the directory ends in one.
pub proof fn law_texts_are_joined_as_paths_are(dir: Seq<u8>, tail: Seq<char>)
    requires
        forall|i: int| 0 <= i < dir.len() ==> dir[i] != 0,
        !(tail.len() > 0 && tail.first() == '/'),
    ensures
        path_bytes_of(join_of(path_text_of(dir), tail)) == if dir.len() == 0 || dir.last() == 0x2f {
            dir + path_bytes_of(tail)
        } else {
            dir.push(0x2f) + path_bytes_of(tail)
        },
{
    let text = path_text_of(dir);
    lemma_ends_alike(dir);
    lemma_follows(dir, tail);
    lemma_follows(dir, seq!['/'] + tail);
    reveal_strlit("/");
    assert("/"@ =~= seq!['/']);
    assert(text + "/"@ + tail =~= text + (seq!['/'] + tail));
    let behind = seq!['/'] + tail;
    assert(behind.drop_first() =~= tail);
    is_ascii_chars_encode_utf8(seq!['/']);
    assert(seq!['/'].drop_first() =~= Seq::empty());
    assert(encode_utf8(seq!['/']) =~= encode_scalar('/' as u32));
    assert(encode_scalar('/' as u32) =~= seq![0x2fu8]);
    assert(dir + path_bytes_of(behind) =~= dir.push(0x2f) + path_bytes_of(tail));
}

/// The text of a path ends in a separator if and only if the path does.
proof fn lemma_ends_alike(bytes: Seq<u8>)
    requires
        forall|i: int| 0 <= i < bytes.len() ==> bytes[i] != 0,
    ensures
        path_text_of(bytes).len() == 0 <==> bytes.len() == 0,
        bytes.len() > 0 ==> (path_text_of(bytes).last() == '/' <==> bytes.last() == 0x2f),
{
    let text = path_text_of(bytes);
    law_paths_come_back_from_their_texts(bytes);
    if bytes.len() > 0 {
        if valid_utf8(bytes) {
            decode_utf8_encode_utf8(bytes);
            lemma_last_of_encoded(text);
        } else {
            lemma_last_of_written(bytes);
        }
    }
}

proof fn lemma_char_code(c: char)
    ensures
        is_scalar(c as u32),
        (c as u32) < 0x80 ==> '\0' <= c <= '\u{7f}',
        c as u32 == 0x2f <==> c == '/',
{
}

proof fn lemma_last_of_encoded(text: Seq<char>)
    requires
        text.len() > 0,
    ensures
        encode_utf8(text).len() > 0,
        encode_utf8(text).last() == 0x2f <==> text.last() == '/',
    decreases text.len(),
{
    let head = encode_scalar(text[0] as u32);
    let rest = text.drop_first();
    assert(encode_utf8(text) == head + encode_utf8(rest));
    if text.len() == 1 {
        let first: char = text[0];
        let c = first as u32;
        lemma_char_code(first);
        assert(rest =~= Seq::empty());
        assert(encode_utf8(text) =~= head);
        if c < 0x80 {
            assert(is_ascii_chars(text));
            is_ascii_chars_encode_utf8(text);
        } else {
            assert(head.last() == last_continuation_byte(c));
            assert(0x80u8 | ((c & 0x3f) as u8) >= 0x80) by (bit_vector);
        }
    } else {
        lemma_last_of_encoded(rest);
        assert(encode_utf8(text).last() == encode_utf8(rest).last());
        assert(text.last() == rest.last());
    }
}

proof fn lemma_last_of_written(bytes: Seq<u8>)
    requires
        bytes.len() > 0,
    ensures
        written(bytes).len() > 0,
        written(bytes).last() == '/' <==> bytes.last() == 0x2f,
    decreases bytes.len(),
{
    let rest = bytes.drop_first();
    if bytes.len() == 1 {
        assert(written(rest) =~= Seq::empty());
        assert(written(bytes) =~= written_byte(bytes[0]));
    } else {
        lemma_last_of_written(rest);
        assert(written(bytes).last() == written(rest).last());
        assert(bytes.last() == rest.last());
    }
}

/// What follows the text of a path follows its bytes.
proof fn lemma_follows(bytes: Seq<u8>, tail: Seq<char>)
    requires
        forall|i: int| 0 <= i < bytes.len() ==> bytes[i] != 0,
    ensures
        path_bytes_of(path_text_of(bytes) + tail) == bytes + path_bytes_of(tail),
{
    if valid_utf8(bytes) {
        let text = decode_utf8(bytes);
        decode_utf8_encode_utf8(bytes);
        assert forall|i: int| 0 <= i < text.len() implies text[i] != '\0' by {
            lemma_zero_is_a_zero_byte(text, i);
        }
        lemma_follows_plain(text, tail);
    } else {
        lemma_follows_written(bytes, tail);
    }
}

proof fn lemma_follows_plain(text: Seq<char>, tail: Seq<char>)
    requires
        forall|i: int| 0 <= i < text.len() ==> text[i] != '\0',
    ensures
        path_bytes_of(text + tail) == encode_utf8(text) + path_bytes_of(tail),
    decreases text.len(),
{
    if text.len() == 0 {
        assert(text + tail =~= tail);
    } else {
        lemma_follows_plain(text.drop_first(), tail);
        assert((text + tail).drop_first() =~= text.drop_first() + tail);
    }
    assert(path_bytes_of(text + tail) =~= encode_utf8(text) + path_bytes_of(tail));
}

proof fn lemma_follows_written(bytes: Seq<u8>, tail: Seq<char>)
    requires
        forall|i: int| 0 <= i < bytes.len() ==> bytes[i] != 0,
    ensures
        path_bytes_of(written(bytes) + tail) == bytes + path_bytes_of(tail),
    decreases bytes.len(),
{
    if bytes.len() == 0 {
        assert(written(bytes) + tail =~= tail);
    } else {
        let b = bytes.first();
        let rest = written(bytes.drop_first());
        let text = written(bytes) + tail;
        lemma_follows_written(bytes.drop_first(), tail);
        if b < 0x80 {
            assert(!starts_written(text));
            assert(text.drop_first() =~= rest + tail);
            is_ascii_chars_encode_utf8(seq![b as char]);
            assert(seq![b as char].drop_first() =~= Seq::empty());
            assert(encode_utf8(seq![b as char]) =~= encode_scalar(text[0] as u32));
            assert(encode_scalar(text[0] as u32) =~= seq![b]);
        } else {
            assert(starts_written(text));
            assert(text.skip(3) =~= rest + tail);
        }
    }
    assert(path_bytes_of(written(bytes) + tail) =~= bytes + path_bytes_of(tail));
}

} // verus!
