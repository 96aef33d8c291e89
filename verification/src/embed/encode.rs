use vstd::prelude::*;
use crate::embed::padding::truncate_ids;
use crate::text::strings::{owned, push_str};

verus! {

#[verifier::external_type_specification]
#[verifier::external_body]
pub struct ExTokenizer(tokenizers::Tokenizer);

/// Wrapper of `tokenizers::Tokenizer::encode` without special tokens: the ids
/// of the encoding, or the error's text. The ids depend on the vocabulary the
/// tokenizer was loaded with, so nothing is stated of them.
#[verifier::external_body]
fn encode_ids(tokenizer: &tokenizers::Tokenizer, text: &str) -> (r: Result<Vec<u32>, String>) {
    match tokenizer.encode(text, false) {
        Ok(encoding) => Ok(encoding.get_ids().to_vec()),
        Err(e) => Err(e.to_string()),
    }
}

/// Wrapper of `tokenizers::Tokenizer::encode_batch` without special tokens:
/// the ids of each text's encoding, one row per text in the order given, or
/// the error's text. The ids depend on the loaded vocabulary (and on the
/// tokenizer's padding settings), so only the number of rows is stated.
#[verifier::external_body]
fn encode_batch_ids(tokenizer: &tokenizers::Tokenizer, texts: &Vec<String>) -> (r: Result<
    Vec<Vec<u32>>,
    String,
>)
    ensures
        r matches Ok(rows) ==> rows@.len() == texts@.len(),
{
    match tokenizer.encode_batch(texts.clone(), false) {
        Ok(encodings) => Ok(encodings.iter().map(|e| e.get_ids().to_vec()).collect()),
        Err(e) => Err(e.to_string()),
    }
}

/// `prefix` followed by `detail`.
fn prefixed(prefix: &str, detail: &str) -> (r: String)
    ensures
        r@ == prefix@ + detail@,
{
    let mut m = owned(prefix);
    push_str(&mut m, detail);
    m
}

/// The token ids of a text, at most `max_length` of them (see
/// `truncate_ids`); a failed encoding is reported as `Tokenize failed: `
/// followed by the tokenizer's error.
pub fn encode_text(tokenizer: &tokenizers::Tokenizer, text: &str, max_length: usize) -> (r: Result<
    Vec<u32>,
    String,
>)
    ensures
        match r {
            Ok(ids) => ids@.len() <= max_length,
            Err(m) => exists|e: Seq<char>| m@ == "Tokenize failed: "@ + e,
        },
{
    match encode_ids(tokenizer, text) {
        Ok(ids) => Ok(truncate_ids(ids, max_length)),
        Err(e) => {
            let m = prefixed("Tokenize failed: ", e.as_str());
            assert(m@ == "Tokenize failed: "@ + e@);
            Err(m)
        },
    }
}

/// The token ids of each text, one row per text, each row at most
/// `max_length` ids (see `truncate_ids`); a failed encoding is reported as
/// `Batch tokenize failed: ` followed by the tokenizer's error.
pub fn encode_texts(tokenizer: &tokenizers::Tokenizer, texts: &Vec<String>, max_length: usize) -> (r:
    Result<Vec<Vec<u32>>, String>)
    ensures
        match r {
            Ok(rows) => rows@.len() == texts@.len() && forall|i: int|
                0 <= i < rows@.len() ==> (#[trigger] rows@[i])@.len() <= max_length,
            Err(m) => exists|e: Seq<char>| m@ == "Batch tokenize failed: "@ + e,
        },
{
    match encode_batch_ids(tokenizer, texts) {
        Ok(rows) => {
            let mut out: Vec<Vec<u32>> = Vec::new();
            let mut i: usize = 0;
            while i < rows.len()
                invariant
                    i <= rows@.len(),
                    out@.len() == i,
                    forall|j: int| 0 <= j < i ==> (#[trigger] out@[j])@.len() <= max_length,
                decreases rows@.len() - i,
            {
                out.push(truncate_ids(rows[i].clone(), max_length));
                i = i + 1;
            }
            Ok(out)
        },
        Err(e) => {
            let m = prefixed("Batch tokenize failed: ", e.as_str());
            assert(m@ == "Batch tokenize failed: "@ + e@);
            Err(m)
        },
    }
}

} // verus!
