//! What the monitor asks of the Ollama server and what it takes from the
//! answer.

use vstd::prelude::*;
use crate::models::{OllamaModelEntry, OllamaTagsResponse};
use crate::text::{chars_of, push_chars};

verus! {

broadcast use vstd::string::group_string_axioms;

/// The URL of the model list of the Ollama server at `base_url`.
pub fn tags_url(base_url: &str) -> (res: String)
    ensures
        res@ == base_url@ + "/api/tags"@,
{
    let mut res = String::new();
    push_chars(&mut res, &chars_of(base_url));
    push_chars(&mut res, &chars_of("/api/tags"));
    assert(res@ =~= base_url@ + "/api/tags"@);
    res
}

/// The names of the models that a model list holds, in its order.
pub open spec fn names_of(tags: OllamaTagsResponse) -> Seq<String> {
    tags.models@.map_values(|e: OllamaModelEntry| e.model_name)
}

/// The names of the models that `tags` holds, in its order.
pub fn model_names(tags: &OllamaTagsResponse) -> (res: Vec<String>)
    ensures
        res@ == names_of(*tags),
{
    let mut res: Vec<String> = Vec::new();
    for i in 0..tags.models.len()
        invariant
            res@ == names_of(*tags).take(i as int),
    {
        res.push(tags.models[i].model_name.clone());
        assert(res@ =~= names_of(*tags).take(i + 1));
    }
    assert(res@ =~= names_of(*tags));
    res
}

/// The name of the first model of `tags`, if it holds any.
pub fn first_model_name(tags: &OllamaTagsResponse) -> (res: Option<String>)
    ensures
        res == (if tags.models@.len() > 0 {
            Some(tags.models@[0].model_name)
        } else {
            None::<String>
        }),
{
    if tags.models.len() > 0 {
        Some(tags.models[0].model_name.clone())
    } else {
        None
    }
}

/// Why a request for the model list gave no list.
#[derive(Debug, Clone, Copy, PartialEq, Eq, Structural)]
pub enum TagsError {
    /// The server answered with this HTTP status code, not 200 (OK).
    Status(u16),
    /// The server answered 200 with a body that is not a model list.
    InvalidBody,
}

/// What an answer of the model list endpoint gives: its status code and its
/// body read as a model list (`None` where it does not read as one). Only a
/// 200 answer gives a list.
pub open spec fn tags_outcome(status: u16, body: Option<OllamaTagsResponse>) -> Result<
    OllamaTagsResponse,
    TagsError,
> {
    if status != 200 {
        Err(TagsError::Status(status))
    } else {
        match body {
            Some(tags) => Ok(tags),
            None => Err(TagsError::InvalidBody),
        }
    }
}

/// The model list that an answer with status code `status` and body `body`
/// (read as a model list, `None` where it does not read as one) gives, or
/// why it gives none (see `tags_outcome`).
pub fn tags_answer(status: u16, body: Option<OllamaTagsResponse>) -> (res: Result<
    OllamaTagsResponse,
    TagsError,
>)
    ensures
        res == tags_outcome(status, body),
        status != 200 ==> res == Err::<OllamaTagsResponse, TagsError>(TagsError::Status(status)),
        status == 200 && body is None ==> res == Err::<OllamaTagsResponse, TagsError>(
            TagsError::InvalidBody,
        ),
        status == 200 && body is Some ==> res == Ok::<OllamaTagsResponse, TagsError>(body->0),
{
    if status != 200 {
        Err(TagsError::Status(status))
    } else {
        match body {
            Some(tags) => Ok(tags),
            None => Err(TagsError::InvalidBody),
        }
    }
}

/// Only a 200 answer gives a model list, and a 200 answer whose body reads as
/// a model list gives exactly that list, whatever its length (an empty list
/// too: Ollama answered, it has no models); any other status gives that
/// status as the error, and a 200 answer whose body is no list gives
/// `InvalidBody`.
pub proof fn lemma_tags_outcome(status: u16, body: Option<OllamaTagsResponse>)
    ensures
        tags_outcome(status, body) is Ok <==> (status == 200 && body is Some),
        status == 200 && body is Some ==> tags_outcome(status, body) == Ok::<
            OllamaTagsResponse,
            TagsError,
        >(body->0),
        status != 200 ==> tags_outcome(status, body) == Err::<OllamaTagsResponse, TagsError>(
            TagsError::Status(status),
        ),
        status == 200 && body is None ==> tags_outcome(status, body) == Err::<
            OllamaTagsResponse,
            TagsError,
        >(TagsError::InvalidBody),
{
}

} // verus!
