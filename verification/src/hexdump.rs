//! Bytes in hexadecimal.

use vstd::prelude::*;
use vstd::string::StringExecFns;

verus! {

/// How many bytes at the start of a frame are shown.
pub const HEAD_LEN: usize = 16;

/// A digit below sixteen, in lower case.
pub open spec fn hex_digit(value: int) -> char {
    if value < 10 {
        (('0' as int) + value) as char
    } else {
        (('a' as int) + value - 10) as char
    }
}

/// A byte as two digits.
pub open spec fn hex_byte(byte: u8) -> Seq<char> {
    seq![hex_digit(byte as int / 16), hex_digit(byte as int % 16)]
}

/// Bytes as two digits each, with spaces between them.
pub open spec fn hex_text(bytes: Seq<u8>) -> Seq<char>
    decreases bytes.len(),
{
    if bytes.len() == 0 {
        Seq::empty()
    } else if bytes.len() == 1 {
        hex_byte(bytes[0])
    } else {
        hex_text(bytes.drop_last()) + seq![' '] + hex_byte(bytes.last())
    }
}

/// The bytes at the start of `data` that are shown.
pub open spec fn head_of(data: Seq<u8>) -> Seq<u8> {
    if data.len() > HEAD_LEN {
        data.take(HEAD_LEN as int)
    } else {
        data
    }
}

fn digit(value: u8) -> (r: &'static str)
    requires
        value < 16,
    ensures
        r@ == seq![hex_digit(value as int)],
{
    proof {
        reveal_strlit("0");
        reveal_strlit("1");
        reveal_strlit("2");
        reveal_strlit("3");
        reveal_strlit("4");
        reveal_strlit("5");
        reveal_strlit("6");
        reveal_strlit("7");
        reveal_strlit("8");
        reveal_strlit("9");
        reveal_strlit("a");
        reveal_strlit("b");
        reveal_strlit("c");
        reveal_strlit("d");
        reveal_strlit("e");
        reveal_strlit("f");
    }
    match value {
        0 => "0",
        1 => "1",
        2 => "2",
        3 => "3",
        4 => "4",
        5 => "5",
        6 => "6",
        7 => "7",
        8 => "8",
        9 => "9",
        10 => "a",
        11 => "b",
        12 => "c",
        13 => "d",
        14 => "e",
        _ => "f",
    }
}

/// The first bytes of `data`, as text.
pub fn hex_head(data: &[u8]) -> (text: String)
    ensures
        text@ == hex_text(head_of(data@)),
{
    let mut text: String = String::new();
    let count: usize = if data.len() > HEAD_LEN {
        HEAD_LEN
    } else {
        data.len()
    };
    let mut i: usize = 0;
    proof {
        reveal_strlit(" ");
    }
    while i < count
        invariant
            i <= count <= data@.len(),
            text@ == hex_text(data@.take(i as int)),
            " "@ == seq![' '],
        decreases count - i,
    {
        let ghost shown = data@.take(i + 1);
        assert(shown.drop_last() =~= data@.take(i as int));
        if i > 0 {
            text.append(" ");
        }
        text.append(digit(data[i] / 16));
        text.append(digit(data[i] % 16));
        assert(text@ =~= hex_text(shown));
        i = i + 1;
    }
    assert(data@.take(count as int) =~= head_of(data@));
    text
}

proof fn lemma_hex_digit(a: int, b: int)
    requires
        0 <= a < 16,
        0 <= b < 16,
        hex_digit(a) == hex_digit(b),
    ensures
        a == b,
{
}

proof fn lemma_hex_length(bytes: Seq<u8>)
    ensures
        hex_text(bytes).len() == (if bytes.len() == 0 {
            0
        } else {
            3 * bytes.len() - 1
        }),
    decreases bytes.len(),
{
    if bytes.len() > 1 {
        lemma_hex_length(bytes.drop_last());
    }
}

/// The text tells the bytes: different bytes have different texts.
pub proof fn law_text_tells_the_bytes(a: Seq<u8>, b: Seq<u8>)
    requires
        hex_text(a) == hex_text(b),
    ensures
        a == b,
    decreases a.len(),
{
    lemma_hex_length(a);
    lemma_hex_length(b);
    assert(a.len() == b.len());
    if a.len() > 0 {
        let text = hex_text(a);
        let n = text.len() as int;
        assert(text[n - 2] == hex_digit(a.last() as int / 16));
        assert(text[n - 1] == hex_digit(a.last() as int % 16));
        assert(text[n - 2] == hex_digit(b.last() as int / 16));
        assert(text[n - 1] == hex_digit(b.last() as int % 16));
        lemma_hex_digit(a.last() as int / 16, b.last() as int / 16);
        lemma_hex_digit(a.last() as int % 16, b.last() as int % 16);
        assert(a.last() == b.last());
        if a.len() > 1 {
            lemma_hex_length(a.drop_last());
            lemma_hex_length(b.drop_last());
            assert(text.take(n - 3) =~= hex_text(a.drop_last()));
            assert(text.take(n - 3) =~= hex_text(b.drop_last()));
            law_text_tells_the_bytes(a.drop_last(), b.drop_last());
            assert(a =~= a.drop_last().push(a.last()));
            assert(b =~= b.drop_last().push(b.last()));
        } else {
            assert(a =~= b);
        }
    } else {
        assert(a =~= b);
    }
}

proof fn lemma_hex_places(bytes: Seq<u8>, i: int)
    requires
        0 <= i < bytes.len(),
    ensures
        hex_text(bytes)[3 * i] == hex_digit(bytes[i] as int / 16),
        hex_text(bytes)[3 * i + 1] == hex_digit(bytes[i] as int % 16),
        i + 1 < bytes.len() ==> hex_text(bytes)[3 * i + 2] == ' ',
    decreases bytes.len(),
{
    lemma_hex_length(bytes);
    if bytes.len() > 1 {
        let front = bytes.drop_last();
        lemma_hex_length(front);
        if i + 1 < bytes.len() {
            lemma_hex_places(front, i);
            assert(hex_text(bytes)[3 * i] == hex_text(front)[3 * i]);
            assert(hex_text(bytes)[3 * i + 1] == hex_text(front)[3 * i + 1]);
        }
    }
}

/// Each byte stands in the text as its two hexadecimal digits in lower case, the
/// higher one first, with one space between bytes and nothing else.
pub proof fn law_every_byte_has_its_digits(bytes: Seq<u8>, i: int)
    requires
        0 <= i < bytes.len(),
    ensures
        ({
            let digits = seq![
                '0', '1', '2', '3', '4', '5', '6', '7', '8', '9', 'a', 'b', 'c', 'd', 'e', 'f',
            ];
            let text = hex_text(bytes);
            &&& text.len() == 3 * bytes.len() - 1
            &&& text[3 * i] == digits[bytes[i] as int / 16]
            &&& text[3 * i + 1] == digits[bytes[i] as int % 16]
            &&& i + 1 < bytes.len() ==> text[3 * i + 2] == ' '
        }),
        hex_text(Seq::empty()).len() == 0,
{
    lemma_hex_length(bytes);
    lemma_hex_places(bytes, i);
}

/// The first sixteen bytes are shown, or all where there are fewer.
pub proof fn law_sixteen_bytes_are_shown(data: Seq<u8>)
    ensures
        data.len() >= 16 ==> head_of(data).len() == 16,
        data.len() < 16 ==> head_of(data).len() == data.len(),
        forall|i: int|
            0 <= i < head_of(data).len() ==> #[trigger] head_of(data)[i] == data[i],
{
}

} // verus!
