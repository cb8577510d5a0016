//! The chat-completion data model, and the extraction of the JSON object
//! embedded in a free-text model response. The HTTP client around these
//! types lives with the binary.

use vstd::prelude::*;

verus! {

use vstd::string::StrSliceExecFns;

/// One chat message: who speaks and what is said.
#[derive(Debug)]
pub struct ChatMessage {
    pub role: String,
    pub content: String,
}

/// The decoded body of a chat-completion response.
#[derive(Debug)]
pub struct ChatCompletionResponse {
    pub choices: Vec<ChatChoice>,
}

/// One returned completion, streamed or whole.
#[derive(Debug)]
pub struct ChatChoice {
    pub delta: Option<ChatDelta>,
    pub message: Option<ChatMessage>,
}

/// A streamed fragment of a completion.
#[derive(Debug)]
pub struct ChatDelta {
    pub content: Option<String>,
}

/// Is `a` the position of the first opening brace of `s`?
pub open spec fn first_opening_brace(s: Seq<char>, a: int) -> bool {
    &&& 0 <= a < s.len()
    &&& s[a] == '{'
    &&& forall|j: int| 0 <= j < a ==> #[trigger] s[j] != '{'
}

/// Is `b` the position of the last closing brace of `s`?
pub open spec fn last_closing_brace(s: Seq<char>, b: int) -> bool {
    &&& 0 <= b < s.len()
    &&& s[b] == '}'
    &&& forall|j: int| b < j < s.len() ==> #[trigger] s[j] != '}'
}

/// The text from the first `{` of `content` through its last `}`, where
/// the JSON object of a free-text model response is expected; `None` when
/// no such window exists.
#[verifier::loop_isolation(false)]
pub fn extract_json_from_content(content: &str) -> (r: Option<&str>)
    ensures
        match r {
            Some(sub) => exists|a: int, b: int|
                #![trigger first_opening_brace(content@, a), last_closing_brace(content@, b)]
                first_opening_brace(content@, a) && last_closing_brace(content@, b) && a < b
                    && sub@ == content@.subrange(a, b + 1),
            None => !(exists|a: int, b: int|
                #![trigger first_opening_brace(content@, a), last_closing_brace(content@, b)]
                first_opening_brace(content@, a) && last_closing_brace(content@, b) && a < b),
        },
{
    let n = content.unicode_len();
    // The first opening brace.
    let mut start: usize = 0;
    let mut has_start = false;
    while start < n && !has_start
        invariant
            start <= n,
            n == content@.len(),
            !has_start ==> forall|j: int| 0 <= j < start ==> #[trigger] content@[j] != '{',
            has_start ==> first_opening_brace(content@, start as int),
        decreases n - start + if has_start {
            0int
        } else {
            1int
        },
    {
        if content.get_char(start) == '{' {
            has_start = true;
        } else {
            start = start + 1;
        }
    }
    if !has_start {
        proof {
            assert forall|a: int, b: int|
                #![trigger first_opening_brace(content@, a), last_closing_brace(content@, b)]
                !(first_opening_brace(content@, a) && last_closing_brace(content@, b) && a < b) by {}
        }
        return None;
    }
    // The last closing brace.
    let mut back: usize = n;
    let mut end: usize = 0;
    let mut has_end = false;
    while back > 0 && !has_end
        invariant
            back <= n,
            n == content@.len(),
            !has_end ==> forall|j: int| back <= j < n ==> #[trigger] content@[j] != '}',
            has_end ==> last_closing_brace(content@, end as int),
        decreases back + if has_end {
            0int
        } else {
            1int
        },
    {
        if content.get_char(back - 1) == '}' {
            end = back - 1;
            has_end = true;
        } else {
            back = back - 1;
        }
    }
    if !has_end {
        proof {
            assert forall|a: int, b: int|
                #![trigger first_opening_brace(content@, a), last_closing_brace(content@, b)]
                !(first_opening_brace(content@, a) && last_closing_brace(content@, b) && a < b) by {}
        }
        return None;
    }
    if start < end {
        let sub = content.substring_char(start, end + 1);
        proof {
            assert(first_opening_brace(content@, start as int) && last_closing_brace(
                content@,
                end as int,
            ) && (start as int) < (end as int) && sub@ == content@.subrange(
                start as int,
                end as int + 1,
            ));
        }
        Some(sub)
    } else {
        proof {
            assert forall|a: int, b: int|
                #![trigger first_opening_brace(content@, a), last_closing_brace(content@, b)]
                !(first_opening_brace(content@, a) && last_closing_brace(content@, b) && a < b) by {
                if first_opening_brace(content@, a) && last_closing_brace(content@, b) {
                    assert(a == start as int);
                    assert(b == end as int);
                }
            }
        }
        None
    }
}

} // verus!
