//! What holds where the two halves of the codec meet: a response that was
//! written out, read again as if it were a request.

use crate::decimal::{decimal, digit_char};
use crate::laws::parsing::{is_word, law_query_is_cut, law_start_line_is_recovered, start_line};
use crate::request::{method_of, parse_bytes, RequestLine, RequestType};
use crate::response::{header_text, sendable, status_text, ResponseView};
use crate::text::is_whitespace;
use vstd::prelude::*;
use vstd::utf8::*;

verus! {

/// Text written one piece after another is the pieces written out one
/// after another.
pub proof fn lemma_encode_concat(first: Seq<char>, second: Seq<char>)
    ensures
        encode_utf8(first + second) == encode_utf8(first) + encode_utf8(second),
    decreases first.len(),
{
    if first.len() == 0 {
        assert(first + second =~= second);
        assert(encode_utf8(first) + encode_utf8(second) =~= encode_utf8(second));
    } else {
        let whole = first + second;
        assert(whole[0] == first[0]);
        assert(whole.drop_first() =~= first.drop_first() + second);
        lemma_encode_concat(first.drop_first(), second);
        assert(encode_utf8(whole) =~= encode_utf8(first) + encode_utf8(second));
    }
}

/// Bytes that start with written-out text and go on with bytes that are
/// text too are read back as that text followed by the text of the rest.
pub proof fn lemma_decode_after_encode(text: Seq<char>, rest: Seq<u8>)
    requires
        valid_utf8(rest),
    ensures
        valid_utf8(encode_utf8(text) + rest),
        decode_utf8(encode_utf8(text) + rest) == text + decode_utf8(rest),
{
    let bytes = encode_utf8(text) + rest;
    encode_utf8_valid_utf8(text);
    valid_utf8_concat(encode_utf8(text), rest);
    let expected = text + decode_utf8(rest);
    lemma_encode_concat(text, decode_utf8(rest));
    decode_utf8_encode_utf8(rest);
    assert(encode_utf8(expected) == bytes);
    encode_utf8_decode_utf8(expected);
}

/// A number written in base ten is a word without a question mark.
pub proof fn lemma_decimal_is_word(n: nat)
    ensures
        is_word(decimal(n)),
        forall|i: int| 0 <= i < decimal(n).len() ==> #[trigger] decimal(n)[i] != '?',
    decreases n,
{
    assert forall|d: nat| !is_whitespace(#[trigger] digit_char(d)) && digit_char(d) != '?' by {}
    if n >= 10 {
        lemma_decimal_is_word(n / 10);
        let front = decimal(n / 10);
        let all = decimal(n);
        assert forall|i: int| 0 <= i < all.len() implies !is_whitespace(#[trigger] all[i])
            && all[i] != '?' by {
            if i < front.len() {
                assert(all[i] == front[i]);
            }
        }
    }
}

/// A response that was written out is read as a request whose path is the
/// number of the status and whose version is the name of the status, as
/// long as the version and the name of the status are each one word and
/// the body is text. The method it is read with is `Get`.
pub proof fn law_status_survives_the_codec(response: ResponseView)
    requires
        is_word(response.response_identifiers.version),
        is_word(response.response_identifiers.method.name),
        valid_utf8(response.body),
    ensures
        parse_bytes(sendable(response)) matches Ok(request) && request.request_identifiers == (
        RequestLine {
            method: RequestType::Get,
            path: decimal(response.response_identifiers.method.id as nat),
            version: response.response_identifiers.method.name,
        }),
{
    let line = response.response_identifiers;
    let number = decimal(line.method.id as nat);
    let first_word = seq!['H', 'T', 'T', 'P', '/'] + line.version;
    let head = start_line(first_word, number, line.method.name);
    let after = header_text(response.headers) + seq!['\r', '\n'] + decode_utf8(response.body);
    // What went out, as text.
    let written = status_text(line) + header_text(response.headers) + seq!['\r', '\n'];
    lemma_encode_concat(status_text(line), header_text(response.headers));
    lemma_encode_concat(status_text(line) + header_text(response.headers), seq!['\r', '\n']);
    assert(sendable(response) =~= encode_utf8(written) + response.body);
    lemma_decode_after_encode(written, response.body);
    let text = written + decode_utf8(response.body);
    assert(text =~= head + seq!['\r', '\n'] + after);
    // Its first line.
    lemma_decimal_is_word(line.method.id as nat);
    assert(is_word(first_word)) by {
        assert forall|i: int| 0 <= i < first_word.len() implies !is_whitespace(
            #[trigger] first_word[i],
        ) by {
            if i >= 5 {
                assert(first_word[i] == line.version[i - 5]);
            }
        }
    }
    law_start_line_is_recovered(first_word, number, line.method.name, after);
    law_query_is_cut(number, Seq::empty());
    assert(first_word[0] == 'H');
    assert(method_of(first_word) == RequestType::Get);
}

/// A response goes out with its body at the end, byte for byte.
pub proof fn law_body_goes_out_as_it_is(response: ResponseView)
    ensures
        sendable(response).len() >= response.body.len(),
        sendable(response).subrange(
            sendable(response).len() - response.body.len(),
            sendable(response).len() as int,
        ) == response.body,
{
    let bytes = sendable(response);
    assert(bytes.subrange(bytes.len() - response.body.len(), bytes.len() as int)
        =~= response.body);
}

} // verus!
