use vstd::prelude::*;
use vstd::utf8::{decode_utf8, encode_utf8, encode_utf8_decode_utf8, encode_utf8_valid_utf8};
use crate::observer::config::{FOOTER, OBSERVER_ROLE, RECORDING_FOCUS, SKIP_GUIDANCE, SYSTEM_IDENTITY};
use crate::text::strings::{
    contains_seq, lemma_no_char_between, lemma_no_start_without_first, lemma_trim_view_plain,
    no_char_between, occurs_at, owned, push_char, push_str, str_eq,
};
use crate::observer::classifier::{
    close_tag, lemma_tag_content_at, lemma_tag_content_suffix, open_tag, tag_content,
};

verus! {

/// The longest tool output, in bytes, that goes into a prompt whole.
pub const MAX_TOOL_RESPONSE_LENGTH: usize = 16000;

/// How many leading bytes of a longer output are kept (six tenths of the limit).
pub const HEAD_LENGTH: usize = 9600;

/// How many trailing bytes of a longer output are kept (three tenths of the limit).
pub const TAIL_LENGTH: usize = 4800;

/// What stands between the kept head and tail of a truncated output.
pub const TRUNCATION_MARKER: &'static str = "\n\n<truncated>\n\n";

/// The reply format asked of the observer.
pub const OBSERVATION_REPLY_FORMAT: &'static str = "Respond with exactly one <observation> block:\n<observation>\n  <type>bugfix|feature|refactor|change|discovery|decision|security_alert|security_note</type>\n  <title>brief title</title>\n  <subtitle>one line summary</subtitle>\n  <facts>\n    <fact>key factual statement about what happened</fact>\n  </facts>\n  <narrative>what was done and why</narrative>\n  <concepts>\n    <concept>how-it-works|why-it-exists|what-changed|problem-solution|gotcha|pattern|trade-off</concept>\n  </concepts>\n  <files_read>\n    <file>/relative/path</file>\n  </files_read>\n  <files_modified>\n    <file>/relative/path</file>\n  </files_modified>\n</observation>\n";

/// The reply format asked of the summarizer.
pub const SUMMARY_REPLY_FORMAT: &'static str = "Respond with exactly one <summary> block:\n<summary>\n  <request>what the user asked for</request>\n  <investigated>what was investigated</investigated>\n  <learned>what was learned</learned>\n  <completed>what was completed</completed>\n  <next_steps>suggested next steps</next_steps>\n  <notes>additional notes</notes>\n</summary>\n";

/// The UTF-8 encoding of a concatenation is the concatenation of the encodings.
pub proof fn lemma_encode_utf8_concat(a: Seq<char>, b: Seq<char>)
    ensures
        encode_utf8(a + b) == encode_utf8(a) + encode_utf8(b),
    decreases a.len(),
{
    if a.len() == 0 {
        assert(a + b == b);
    } else {
        lemma_encode_utf8_concat(a.drop_first(), b);
        assert((a + b).drop_first() == a.drop_first() + b);
        assert((a + b)[0] == a[0]);
        let first = vstd::utf8::encode_scalar(a[0] as u32);
        assert(first + (encode_utf8(a.drop_first()) + encode_utf8(b)) =~= (first + encode_utf8(
            a.drop_first(),
        )) + encode_utf8(b));
    }
}

/// The bytes of an output as they go into a prompt: whole when at most
/// `MAX_TOOL_RESPONSE_LENGTH` bytes long, else the first `HEAD_LENGTH` bytes,
/// the marker, and the last `TAIL_LENGTH` bytes.
pub open spec fn truncate_bytes(b: Seq<u8>) -> Seq<u8> {
    if b.len() <= MAX_TOOL_RESPONSE_LENGTH {
        b
    } else {
        b.take(HEAD_LENGTH as int) + encode_utf8(TRUNCATION_MARKER@) + b.skip(b.len() - TAIL_LENGTH)
    }
}

/// An output as it goes into a prompt (see `truncate_bytes`).
pub open spec fn truncated_output(text: Seq<char>) -> Seq<char> {
    decode_utf8(truncate_bytes(encode_utf8(text)))
}

/// The cuts of a long output fall on character boundaries (otherwise the
/// truncation would split a character).
pub open spec fn truncation_cuts_ok(text: Seq<char>) -> bool {
    let b = encode_utf8(text);
    b.len() > MAX_TOOL_RESPONSE_LENGTH ==> vstd::utf8::is_char_boundary(b, HEAD_LENGTH as int)
        && vstd::utf8::is_char_boundary(b, b.len() - TAIL_LENGTH)
}

/// Shortens a long tool output for a prompt (see `truncate_bytes`).
pub fn truncate_tool_output(text: &str) -> (r: String)
    requires
        truncation_cuts_ok(text@),
    ensures
        r@ == truncated_output(text@),
        encode_utf8(r@) == truncate_bytes(encode_utf8(text@)),
{
    proof {
        encode_utf8_decode_utf8(text@);
    }
    let n = text.as_bytes().len();
    if n <= MAX_TOOL_RESPONSE_LENGTH {
        return owned(text);
    }
    let (head, _) = text.split_at(HEAD_LENGTH);
    let (_, tail) = text.split_at(n - TAIL_LENGTH);
    let mut r = owned(head);
    push_str(&mut r, TRUNCATION_MARKER);
    push_str(&mut r, tail);
    proof {
        lemma_encode_utf8_concat(head@, TRUNCATION_MARKER@);
        lemma_encode_utf8_concat(head@ + TRUNCATION_MARKER@, tail@);
        assert(encode_utf8(r@) =~= truncate_bytes(encode_utf8(text@)));
        encode_utf8_decode_utf8(r@);
    }
    r
}

/// The prompt that asks the observer to classify one tool execution.
pub open spec fn observation_prompt(
    tool_name: Seq<char>,
    tool_input: Seq<char>,
    truncated: Seq<char>,
    cwd: Seq<char>,
    timestamp: Seq<char>,
    user_prompt: Option<Seq<char>>,
) -> Seq<char> {
    SYSTEM_IDENTITY@ + "\n\n"@ + "<observed_from_primary_session>\n"@ + "  <what_happened>"@
        + tool_name + "</what_happened>\n"@ + match user_prompt {
        Some(p) => "  <user_request>"@ + p + "</user_request>\n"@,
        None => seq![],
    } + "  <occurred_at>"@ + timestamp + "</occurred_at>\n"@ + "  <working_directory>"@ + cwd
        + "</working_directory>\n"@ + if tool_input.len() > 0 && tool_input != "{}"@ {
        "  <parameters>\n"@ + tool_input + "\n"@ + "  </parameters>\n"@
    } else {
        seq![]
    } + "  <outcome>\n"@ + truncated + "\n  </outcome>\n"@ + "</observed_from_primary_session>\n\n"@
        + OBSERVER_ROLE@ + "\n\n"@ + RECORDING_FOCUS@ + "\n\n"@ + SKIP_GUIDANCE@ + "\n\n"@
        + FOOTER@ + "\n\n"@ + OBSERVATION_REPLY_FORMAT@
}

/// Builds the prompt that asks the observer to classify one tool execution;
/// the output goes in truncated (see `truncate_tool_output`).
pub fn build_observation_prompt(
    tool_name: &str,
    tool_input: &str,
    tool_output: &str,
    cwd: &str,
    timestamp: &str,
    user_prompt: Option<&str>,
) -> (r: String)
    requires
        truncation_cuts_ok(tool_output@),
    ensures
        r@ == observation_prompt(
            tool_name@,
            tool_input@,
            truncated_output(tool_output@),
            cwd@,
            timestamp@,
            match user_prompt {
                Some(p) => Some(p@),
                None => None,
            },
        ),
{
    let truncated = truncate_tool_output(tool_output);
    let mut prompt = owned(SYSTEM_IDENTITY);
    push_str(&mut prompt, "\n\n");
    push_str(&mut prompt, "<observed_from_primary_session>\n");
    push_str(&mut prompt, "  <what_happened>");
    push_str(&mut prompt, tool_name);
    push_str(&mut prompt, "</what_happened>\n");
    let ghost before_user = prompt@;
    match user_prompt {
        Some(p) => {
            push_str(&mut prompt, "  <user_request>");
            push_str(&mut prompt, p);
            push_str(&mut prompt, "</user_request>\n");
            assert(prompt@ == before_user + ("  <user_request>"@ + p@ + "</user_request>\n"@));
        },
        None => {
            assert(prompt@ == before_user + seq![]);
        },
    }
    push_str(&mut prompt, "  <occurred_at>");
    push_str(&mut prompt, timestamp);
    push_str(&mut prompt, "</occurred_at>\n");
    push_str(&mut prompt, "  <working_directory>");
    push_str(&mut prompt, cwd);
    push_str(&mut prompt, "</working_directory>\n");
    let ghost before_params = prompt@;
    if !tool_input.is_empty() && !str_eq(tool_input, "{}") {
        push_str(&mut prompt, "  <parameters>\n");
        push_str(&mut prompt, tool_input);
        push_str(&mut prompt, "\n");
        push_str(&mut prompt, "  </parameters>\n");
        assert(prompt@ == before_params + ("  <parameters>\n"@ + tool_input@ + "\n"@
            + "  </parameters>\n"@));
    } else {
        assert(prompt@ == before_params + seq![]);
    }
    push_str(&mut prompt, "  <outcome>\n");
    push_str(&mut prompt, truncated.as_str());
    push_str(&mut prompt, "\n  </outcome>\n");
    push_str(&mut prompt, "</observed_from_primary_session>\n\n");
    push_str(&mut prompt, OBSERVER_ROLE);
    push_str(&mut prompt, "\n\n");
    push_str(&mut prompt, RECORDING_FOCUS);
    push_str(&mut prompt, "\n\n");
    push_str(&mut prompt, SKIP_GUIDANCE);
    push_str(&mut prompt, "\n\n");
    push_str(&mut prompt, FOOTER);
    push_str(&mut prompt, "\n\n");
    push_str(&mut prompt, OBSERVATION_REPLY_FORMAT);
    prompt
}

/// The decimal digits of a number.
pub open spec fn decimal(n: nat) -> Seq<char>
    decreases n,
{
    if n < 10 {
        seq![digit_char((n % 10) as nat)]
    } else {
        decimal(n / 10) + seq![digit_char((n % 10) as nat)]
    }
}

/// The character of a decimal digit.
pub open spec fn digit_char(d: nat) -> char {
    ((d + 48) as u32) as char
}

/// Writes a number in decimal.
pub fn decimal_string(n: u64) -> (r: String)
    ensures
        r@ == decimal(n as nat),
{
    // Collect the digits from the lowest one up.
    let mut digits: Vec<char> = Vec::new();
    let mut m = n;
    loop
        invariant_except_break
            decimal(n as nat) == decimal(m as nat) + digits@.reverse(),
            m <= n,
        ensures
            decimal(n as nat) == digits@.reverse(),
        decreases m,
    {
        let d = (m % 10) as u8;
        let c = (d + 48) as char;
        assert(c == digit_char((m % 10) as nat));
        if m < 10 {
            digits.push(c);
            assert(decimal(m as nat) == seq![c]);
            assert(digits@.reverse() =~= seq![c] + digits@.drop_last().reverse());
            assert(decimal(n as nat) == digits@.reverse());
            break;
        }
        digits.push(c);
        assert(decimal(m as nat) == decimal((m / 10) as nat) + seq![c]);
        assert(digits@.reverse() =~= seq![c] + digits@.drop_last().reverse());
        m = m / 10;
    }
    let mut r = String::new();
    let mut i = digits.len();
    while i > 0
        invariant
            i <= digits@.len(),
            r@ == digits@.reverse().take((digits@.len() - i) as int),
            decimal(n as nat) == digits@.reverse(),
        decreases i,
    {
        i = i - 1;
        push_char(&mut r, digits[i]);
        assert(digits@.reverse().take((digits@.len() - i) as int) =~= digits@.reverse().take(
            (digits@.len() - i - 1) as int,
        ).push(digits@[i as int]));
    }
    assert(digits@.reverse().take(digits@.len() as int) == digits@.reverse());
    r
}

/// The decimal text of an integer, with a leading `-` when it is negative.
pub open spec fn signed_decimal(n: int) -> Seq<char> {
    if n < 0 {
        "-"@ + decimal((-n) as nat)
    } else {
        decimal(n as nat)
    }
}

/// Writes a signed number in decimal.
pub fn decimal_i64(n: i64) -> (r: String)
    ensures
        r@ == signed_decimal(n as int),
{
    if n < 0 {
        let magnitude: u64 = if n == i64::MIN {
            9223372036854775808u64
        } else {
            (-n) as u64
        };
        assert(magnitude as int == -(n as int));
        let mut r = String::new();
        push_char(&mut r, '-');
        push_str(&mut r, decimal_string(magnitude).as_str());
        proof {
            reveal_strlit("-");
            assert(r@ =~= "-"@ + decimal(magnitude as nat));
        }
        r
    } else {
        decimal_string(n as u64)
    }
}

/// The prompt that asks for a summary of a session.
pub open spec fn summary_prompt(session_title: Seq<char>, observation_count: nat) -> Seq<char> {
    SYSTEM_IDENTITY@ + "\n\n"@ + "--- MODE SWITCH: PROGRESS SUMMARY ---\n\n"@ + "Summarize the session \""@
        + session_title + "\" which has "@ + decimal(observation_count) + " observations.\n\n"@
        + SUMMARY_REPLY_FORMAT@
}

/// Builds the prompt that asks for a summary of a session.
pub fn build_summary_prompt(session_title: &str, observation_count: usize) -> (r: String)
    ensures
        r@ == summary_prompt(session_title@, observation_count as nat),
{
    let mut prompt = owned(SYSTEM_IDENTITY);
    push_str(&mut prompt, "\n\n");
    push_str(&mut prompt, "--- MODE SWITCH: PROGRESS SUMMARY ---\n\n");
    push_str(&mut prompt, "Summarize the session \"");
    push_str(&mut prompt, session_title);
    push_str(&mut prompt, "\" which has ");
    push_str(&mut prompt, decimal_string(observation_count as u64).as_str());
    push_str(&mut prompt, " observations.\n\n");
    push_str(&mut prompt, SUMMARY_REPLY_FORMAT);
    prompt
}

/// `n` starts nowhere in `h` at the positions from `j` up to `k`, judged by
/// its first three characters.
spec fn no_start_between(h: Seq<char>, n: Seq<char>, j: int, k: int) -> bool
    decreases k - j,
{
    if j >= k {
        true
    } else {
        (h[j] != n[0] || h[j + 1] != n[1] || h[j + 2] != n[2]) && no_start_between(h, n, j + 1, k)
    }
}

/// What `no_start_between` says, for every position.
proof fn lemma_no_start_between(h: Seq<char>, n: Seq<char>, j: int, k: int)
    requires
        n.len() >= 3,
        0 <= j,
        no_start_between(h, n, j, k),
    ensures
        forall|i: int| j <= i < k ==> !occurs_at(h, n, i),
    decreases k - j,
{
    if j < k {
        lemma_no_start_between(h, n, j + 1, k);
        if occurs_at(h, n, j) {
            assert(h.subrange(j, j + n.len())[0] == n[0]);
            assert(h.subrange(j, j + n.len())[1] == n[1]);
            assert(h.subrange(j, j + n.len())[2] == n[2]);
        }
    }
}

/// The `<request>` content of the summary reply format is its placeholder.
proof fn lemma_reply_format_request()
    ensures
        tag_content(SUMMARY_REPLY_FORMAT@, "request"@) == "what the user asked for"@,
{
    let f = SUMMARY_REPLY_FORMAT@;
    let open = open_tag("request"@);
    let close = close_tag("request"@);
    reveal_strlit("Respond with exactly one <summary> block:\n<summary>\n  <request>what the user asked for</request>\n  <investigated>what was investigated</investigated>\n  <learned>what was learned</learned>\n  <completed>what was completed</completed>\n  <next_steps>suggested next steps</next_steps>\n  <notes>additional notes</notes>\n</summary>\n");
    reveal_strlit("request");
    reveal_strlit("what the user asked for");
    assert(no_start_between(f, open, 0, 54)) by {
        reveal_with_fuel(no_start_between, 55);
    }
    lemma_no_start_between(f, open, 0, 54);
    assert(no_start_between(f, close, 63, 86)) by {
        reveal_with_fuel(no_start_between, 24);
    }
    lemma_no_start_between(f, close, 63, 86);
    assert(f.subrange(54, 63) =~= open);
    assert(f.subrange(86, 96) =~= close);
    assert(f.subrange(63, 86) =~= "what the user asked for"@);
    lemma_tag_content_at(f, "request"@, 54, 86);
    lemma_trim_view_plain("what the user asked for"@);
}

/// The `<investigated>` content of the summary reply format is its placeholder.
proof fn lemma_reply_format_investigated()
    ensures
        tag_content(SUMMARY_REPLY_FORMAT@, "investigated"@) == "what was investigated"@,
{
    let f = SUMMARY_REPLY_FORMAT@;
    let open = open_tag("investigated"@);
    let close = close_tag("investigated"@);
    reveal_strlit("Respond with exactly one <summary> block:\n<summary>\n  <request>what the user asked for</request>\n  <investigated>what was investigated</investigated>\n  <learned>what was learned</learned>\n  <completed>what was completed</completed>\n  <next_steps>suggested next steps</next_steps>\n  <notes>additional notes</notes>\n</summary>\n");
    reveal_strlit("investigated");
    reveal_strlit("what was investigated");
    assert(no_start_between(f, open, 0, 60)) by {
        reveal_with_fuel(no_start_between, 61);
    }
    lemma_no_start_between(f, open, 0, 60);
    assert(no_start_between(f, open, 60, 99)) by {
        reveal_with_fuel(no_start_between, 40);
    }
    lemma_no_start_between(f, open, 60, 99);
    assert(no_start_between(f, close, 113, 134)) by {
        reveal_with_fuel(no_start_between, 22);
    }
    lemma_no_start_between(f, close, 113, 134);
    assert(f.subrange(99, 113) =~= open);
    assert(f.subrange(134, 149) =~= close);
    assert(f.subrange(113, 134) =~= "what was investigated"@);
    lemma_tag_content_at(f, "investigated"@, 99, 134);
    lemma_trim_view_plain("what was investigated"@);
}

/// The `<learned>` content of the summary reply format is its placeholder.
proof fn lemma_reply_format_learned()
    ensures
        tag_content(SUMMARY_REPLY_FORMAT@, "learned"@) == "what was learned"@,
{
    let f = SUMMARY_REPLY_FORMAT@;
    let open = open_tag("learned"@);
    let close = close_tag("learned"@);
    reveal_strlit("Respond with exactly one <summary> block:\n<summary>\n  <request>what the user asked for</request>\n  <investigated>what was investigated</investigated>\n  <learned>what was learned</learned>\n  <completed>what was completed</completed>\n  <next_steps>suggested next steps</next_steps>\n  <notes>additional notes</notes>\n</summary>\n");
    reveal_strlit("learned");
    reveal_strlit("what was learned");
    assert(no_start_between(f, open, 0, 60)) by {
        reveal_with_fuel(no_start_between, 61);
    }
    lemma_no_start_between(f, open, 0, 60);
    assert(no_start_between(f, open, 60, 120)) by {
        reveal_with_fuel(no_start_between, 61);
    }
    lemma_no_start_between(f, open, 60, 120);
    assert(no_start_between(f, open, 120, 152)) by {
        reveal_with_fuel(no_start_between, 33);
    }
    lemma_no_start_between(f, open, 120, 152);
    assert(no_start_between(f, close, 161, 177)) by {
        reveal_with_fuel(no_start_between, 17);
    }
    lemma_no_start_between(f, close, 161, 177);
    assert(f.subrange(152, 161) =~= open);
    assert(f.subrange(177, 187) =~= close);
    assert(f.subrange(161, 177) =~= "what was learned"@);
    lemma_tag_content_at(f, "learned"@, 152, 177);
    lemma_trim_view_plain("what was learned"@);
}

/// The `<completed>` content of the summary reply format is its placeholder.
proof fn lemma_reply_format_completed()
    ensures
        tag_content(SUMMARY_REPLY_FORMAT@, "completed"@) == "what was completed"@,
{
    let f = SUMMARY_REPLY_FORMAT@;
    let open = open_tag("completed"@);
    let close = close_tag("completed"@);
    reveal_strlit("Respond with exactly one <summary> block:\n<summary>\n  <request>what the user asked for</request>\n  <investigated>what was investigated</investigated>\n  <learned>what was learned</learned>\n  <completed>what was completed</completed>\n  <next_steps>suggested next steps</next_steps>\n  <notes>additional notes</notes>\n</summary>\n");
    reveal_strlit("completed");
    reveal_strlit("what was completed");
    assert(no_start_between(f, open, 0, 60)) by {
        reveal_with_fuel(no_start_between, 61);
    }
    lemma_no_start_between(f, open, 0, 60);
    assert(no_start_between(f, open, 60, 120)) by {
        reveal_with_fuel(no_start_between, 61);
    }
    lemma_no_start_between(f, open, 60, 120);
    assert(no_start_between(f, open, 120, 180)) by {
        reveal_with_fuel(no_start_between, 61);
    }
    lemma_no_start_between(f, open, 120, 180);
    assert(no_start_between(f, open, 180, 190)) by {
        reveal_with_fuel(no_start_between, 11);
    }
    lemma_no_start_between(f, open, 180, 190);
    assert(no_start_between(f, close, 201, 219)) by {
        reveal_with_fuel(no_start_between, 19);
    }
    lemma_no_start_between(f, close, 201, 219);
    assert(f.subrange(190, 201) =~= open);
    assert(f.subrange(219, 231) =~= close);
    assert(f.subrange(201, 219) =~= "what was completed"@);
    lemma_tag_content_at(f, "completed"@, 190, 219);
    lemma_trim_view_plain("what was completed"@);
}

/// The `<next_steps>` content of the summary reply format is its placeholder.
proof fn lemma_reply_format_next_steps()
    ensures
        tag_content(SUMMARY_REPLY_FORMAT@, "next_steps"@) == "suggested next steps"@,
{
    let f = SUMMARY_REPLY_FORMAT@;
    let open = open_tag("next_steps"@);
    let close = close_tag("next_steps"@);
    reveal_strlit("Respond with exactly one <summary> block:\n<summary>\n  <request>what the user asked for</request>\n  <investigated>what was investigated</investigated>\n  <learned>what was learned</learned>\n  <completed>what was completed</completed>\n  <next_steps>suggested next steps</next_steps>\n  <notes>additional notes</notes>\n</summary>\n");
    reveal_strlit("next_steps");
    reveal_strlit("suggested next steps");
    assert(no_start_between(f, open, 0, 60)) by {
        reveal_with_fuel(no_start_between, 61);
    }
    lemma_no_start_between(f, open, 0, 60);
    assert(no_start_between(f, open, 60, 120)) by {
        reveal_with_fuel(no_start_between, 61);
    }
    lemma_no_start_between(f, open, 60, 120);
    assert(no_start_between(f, open, 120, 180)) by {
        reveal_with_fuel(no_start_between, 61);
    }
    lemma_no_start_between(f, open, 120, 180);
    assert(no_start_between(f, open, 180, 234)) by {
        reveal_with_fuel(no_start_between, 55);
    }
    lemma_no_start_between(f, open, 180, 234);
    assert(no_start_between(f, close, 246, 266)) by {
        reveal_with_fuel(no_start_between, 21);
    }
    lemma_no_start_between(f, close, 246, 266);
    assert(f.subrange(234, 246) =~= open);
    assert(f.subrange(266, 279) =~= close);
    assert(f.subrange(246, 266) =~= "suggested next steps"@);
    lemma_tag_content_at(f, "next_steps"@, 234, 266);
    lemma_trim_view_plain("suggested next steps"@);
}

/// The `<notes>` content of the summary reply format is its placeholder.
proof fn lemma_reply_format_notes()
    ensures
        tag_content(SUMMARY_REPLY_FORMAT@, "notes"@) == "additional notes"@,
{
    let f = SUMMARY_REPLY_FORMAT@;
    let open = open_tag("notes"@);
    let close = close_tag("notes"@);
    reveal_strlit("Respond with exactly one <summary> block:\n<summary>\n  <request>what the user asked for</request>\n  <investigated>what was investigated</investigated>\n  <learned>what was learned</learned>\n  <completed>what was completed</completed>\n  <next_steps>suggested next steps</next_steps>\n  <notes>additional notes</notes>\n</summary>\n");
    reveal_strlit("notes");
    reveal_strlit("additional notes");
    assert(no_start_between(f, open, 0, 60)) by {
        reveal_with_fuel(no_start_between, 61);
    }
    lemma_no_start_between(f, open, 0, 60);
    assert(no_start_between(f, open, 60, 120)) by {
        reveal_with_fuel(no_start_between, 61);
    }
    lemma_no_start_between(f, open, 60, 120);
    assert(no_start_between(f, open, 120, 180)) by {
        reveal_with_fuel(no_start_between, 61);
    }
    lemma_no_start_between(f, open, 120, 180);
    assert(no_start_between(f, open, 180, 240)) by {
        reveal_with_fuel(no_start_between, 61);
    }
    lemma_no_start_between(f, open, 180, 240);
    assert(no_start_between(f, open, 240, 282)) by {
        reveal_with_fuel(no_start_between, 43);
    }
    lemma_no_start_between(f, open, 240, 282);
    assert(no_start_between(f, close, 289, 305)) by {
        reveal_with_fuel(no_start_between, 17);
    }
    lemma_no_start_between(f, close, 289, 305);
    assert(f.subrange(282, 289) =~= open);
    assert(f.subrange(305, 313) =~= close);
    assert(f.subrange(289, 305) =~= "additional notes"@);
    lemma_tag_content_at(f, "notes"@, 282, 305);
    lemma_trim_view_plain("additional notes"@);
}

/// The head of the summary prompt, before the session's title.
spec fn summary_head() -> Seq<char> {
    SYSTEM_IDENTITY@ + "\n\n"@ + "--- MODE SWITCH: PROGRESS SUMMARY ---\n\n"@ + "Summarize the session \""@
}

/// No `<` stands in the head of the summary prompt.
proof fn lemma_summary_head_no_lt()
    ensures
        forall|i: int| 0 <= i < summary_head().len() ==> summary_head()[i] != '<',
{
    let a = summary_head();
    reveal_strlit("You are a memory observer. Your job is to analyze tool executions and\nclassify them into structured observations.\n\nYou do NOT have access to any tools. You only output XML.\nDo NOT write explanations outside the XML tags.\nDo NOT suggest code or actions.\nOnly classify what you observe.");
    reveal_strlit("\n\n");
    reveal_strlit("--- MODE SWITCH: PROGRESS SUMMARY ---\n\n");
    reveal_strlit("Summarize the session \"");
    assert(a.len() == 348);
    assert(no_char_between(a, '<', 0, 60)) by {
        reveal_with_fuel(no_char_between, 61);
    }
    lemma_no_char_between(a, '<', 0, 60);
    assert(no_char_between(a, '<', 60, 80)) by {
        reveal_with_fuel(no_char_between, 21);
    }
    lemma_no_char_between(a, '<', 60, 80);
    assert(no_char_between(a, '<', 80, 100)) by {
        reveal_with_fuel(no_char_between, 21);
    }
    lemma_no_char_between(a, '<', 80, 100);
    assert(no_char_between(a, '<', 100, 120)) by {
        reveal_with_fuel(no_char_between, 21);
    }
    lemma_no_char_between(a, '<', 100, 120);
    assert(no_char_between(a, '<', 120, 140)) by {
        reveal_with_fuel(no_char_between, 21);
    }
    lemma_no_char_between(a, '<', 120, 140);
    assert(no_char_between(a, '<', 140, 160)) by {
        reveal_with_fuel(no_char_between, 21);
    }
    lemma_no_char_between(a, '<', 140, 160);
    assert(no_char_between(a, '<', 160, 180)) by {
        reveal_with_fuel(no_char_between, 21);
    }
    lemma_no_char_between(a, '<', 160, 180);
    assert(no_char_between(a, '<', 180, 240)) by {
        reveal_with_fuel(no_char_between, 61);
    }
    lemma_no_char_between(a, '<', 180, 240);
    assert(no_char_between(a, '<', 240, 300)) by {
        reveal_with_fuel(no_char_between, 61);
    }
    lemma_no_char_between(a, '<', 240, 300);
    assert(no_char_between(a, '<', 300, 348)) by {
        reveal_with_fuel(no_char_between, 49);
    }
    lemma_no_char_between(a, '<', 300, 348);
}

/// A number written in decimal holds no `<`.
proof fn lemma_decimal_no_lt(n: nat)
    ensures
        forall|i: int| 0 <= i < decimal(n).len() ==> decimal(n)[i] != '<',
    decreases n,
{
    let d = digit_char((n % 10) as nat);
    assert(d != '<') by {
        assert(((n % 10) as nat + 48) as u32 as char == d);
    }
    if n >= 10 {
        lemma_decimal_no_lt(n / 10);
        let s = decimal(n / 10);
        assert(decimal(n) == s + seq![d]);
        assert forall|i: int| 0 <= i < decimal(n).len() implies decimal(n)[i] != '<' by {
            if i < s.len() {
                assert(decimal(n)[i] == s[i]);
            }
        }
    } else {
        assert(decimal(n) == seq![d]);
    }
}

/// The text of the summary prompt before its reply format: the head, the
/// session's title and the count of observations.
spec fn summary_lead(session_title: Seq<char>, observation_count: nat) -> Seq<char> {
    summary_head() + session_title + "\" which has "@ + decimal(observation_count)
        + " observations.\n\n"@
}

/// No `<tag>` starts in the lead of the summary prompt when the title holds
/// none, whatever follows the lead.
proof fn lemma_summary_lead_no_start(
    session_title: Seq<char>,
    observation_count: nat,
    tag: Seq<char>,
    rest: Seq<char>,
)
    requires
        !contains_seq(session_title, open_tag(tag)),
        forall|q: int| 0 <= q < open_tag(tag).len() ==> open_tag(tag)[q] != '"',
    ensures
        forall|j: int|
            0 <= j < summary_lead(session_title, observation_count).len() ==> !occurs_at(
                summary_lead(session_title, observation_count) + rest,
                open_tag(tag),
                j,
            ),
{
    let a = summary_head();
    let x = summary_lead(session_title, observation_count);
    let h = x + rest;
    let open = open_tag(tag);
    let t = session_title;
    lemma_summary_head_no_lt();
    lemma_decimal_no_lt(observation_count);
    reveal_strlit("\" which has ");
    reveal_strlit(" observations.\n\n");
    assert(no_char_between("\" which has "@, '<', 0, 11)) by {
        reveal_with_fuel(no_char_between, 12);
    }
    assert(no_char_between(" observations.\n\n"@, '<', 0, 16)) by {
        reveal_with_fuel(no_char_between, 17);
    }
    lemma_no_char_between("\" which has "@, '<', 0, 11);
    lemma_no_char_between(" observations.\n\n"@, '<', 0, 16);
    assert(open[0] == '<');
    assert forall|j: int| 0 <= j < x.len() implies !occurs_at(h, open, j) by {
        if j < a.len() {
            assert(h[j] == a[j]);
            lemma_no_start_without_first(h, open, j);
        } else if j < a.len() + t.len() {
            if j + open.len() <= a.len() + t.len() {
                if occurs_at(h, open, j) {
                    assert(t.subrange(j - a.len(), j - a.len() + open.len()) =~= h.subrange(
                        j,
                        j + open.len(),
                    ));
                    assert(occurs_at(t, open, j - a.len()));
                }
            } else {
                let q: int = a.len() + t.len() - j;
                assert(h[a.len() + t.len() as int] == '"');
                if occurs_at(h, open, j) {
                    assert(h.subrange(j, j + open.len())[q] == open[q]);
                }
            }
        } else {
            assert(h[j] != '<');
            lemma_no_start_without_first(h, open, j);
        }
    }
}

/// The opening field tags of a summary hold no `"`.
proof fn lemma_summary_tags_unquoted()
    ensures
        forall|q: int| 0 <= q < open_tag("request"@).len() ==> open_tag("request"@)[q] != '"',
        forall|q: int| 0 <= q < open_tag("investigated"@).len() ==> open_tag("investigated"@)[q] != '"',
        forall|q: int| 0 <= q < open_tag("learned"@).len() ==> open_tag("learned"@)[q] != '"',
        forall|q: int| 0 <= q < open_tag("completed"@).len() ==> open_tag("completed"@)[q] != '"',
        forall|q: int| 0 <= q < open_tag("next_steps"@).len() ==> open_tag("next_steps"@)[q] != '"',
        forall|q: int| 0 <= q < open_tag("notes"@).len() ==> open_tag("notes"@)[q] != '"',
{
    reveal_strlit("request");
    assert(no_char_between(open_tag("request"@), '"', 0, 9)) by {
        reveal_with_fuel(no_char_between, 10);
    }
    lemma_no_char_between(open_tag("request"@), '"', 0, 9);
    reveal_strlit("investigated");
    assert(no_char_between(open_tag("investigated"@), '"', 0, 14)) by {
        reveal_with_fuel(no_char_between, 15);
    }
    lemma_no_char_between(open_tag("investigated"@), '"', 0, 14);
    reveal_strlit("learned");
    assert(no_char_between(open_tag("learned"@), '"', 0, 9)) by {
        reveal_with_fuel(no_char_between, 10);
    }
    lemma_no_char_between(open_tag("learned"@), '"', 0, 9);
    reveal_strlit("completed");
    assert(no_char_between(open_tag("completed"@), '"', 0, 11)) by {
        reveal_with_fuel(no_char_between, 12);
    }
    lemma_no_char_between(open_tag("completed"@), '"', 0, 11);
    reveal_strlit("next_steps");
    assert(no_char_between(open_tag("next_steps"@), '"', 0, 12)) by {
        reveal_with_fuel(no_char_between, 13);
    }
    lemma_no_char_between(open_tag("next_steps"@), '"', 0, 12);
    reveal_strlit("notes");
    assert(no_char_between(open_tag("notes"@), '"', 0, 7)) by {
        reveal_with_fuel(no_char_between, 8);
    }
    lemma_no_char_between(open_tag("notes"@), '"', 0, 7);
}

/// The summary prompt begins with the system identity, holds the line that
/// names the session and its count of observations, and ends with
/// `</summary>` and a line break.
pub proof fn lemma_summary_prompt_shape(session_title: Seq<char>, observation_count: nat)
    ensures
        summary_prompt(session_title, observation_count).take(SYSTEM_IDENTITY@.len() as int)
            == SYSTEM_IDENTITY@,
        occurs_at(
            summary_prompt(session_title, observation_count),
            "Summarize the session \""@ + session_title + "\" which has "@ + decimal(
                observation_count,
            ) + " observations."@,
            (SYSTEM_IDENTITY@ + "\n\n"@ + "--- MODE SWITCH: PROGRESS SUMMARY ---\n\n"@).len() as int,
        ),
        summary_prompt(session_title, observation_count).skip(
            summary_prompt(session_title, observation_count).len() - 11,
        ) == "</summary>\n"@,
{
    let p = summary_prompt(session_title, observation_count);
    let f = SUMMARY_REPLY_FORMAT@;
    let pre = SYSTEM_IDENTITY@ + "\n\n"@ + "--- MODE SWITCH: PROGRESS SUMMARY ---\n\n"@;
    let o = " observations.\n\n"@;
    reveal_strlit(" observations.\n\n");
    reveal_strlit(" observations.");
    reveal_strlit("</summary>\n");
    reveal_strlit("Respond with exactly one <summary> block:\n<summary>\n  <request>what the user asked for</request>\n  <investigated>what was investigated</investigated>\n  <learned>what was learned</learned>\n  <completed>what was completed</completed>\n  <next_steps>suggested next steps</next_steps>\n  <notes>additional notes</notes>\n</summary>\n");
    assert(o.take(14) =~= " observations."@);
    let line = "Summarize the session \""@ + session_title + "\" which has "@ + decimal(
        observation_count,
    ) + o.take(14);
    assert(p == pre + line + o.skip(14) + f) by {
        assert(o =~= o.take(14) + o.skip(14));
    }
    assert(p.subrange(pre.len() as int, pre.len() + line.len() as int) =~= line);
    assert(p.take(SYSTEM_IDENTITY@.len() as int) =~= SYSTEM_IDENTITY@);
    assert(f.skip(f.len() - 11) =~= "</summary>\n"@);
    assert(p.skip(p.len() - 11) =~= f.skip(f.len() - 11));
}

/// Reading back what `build_summary_prompt` gives with `parse_summary_xml`
/// (whose fields are the `tag_content` of their tags) gives, for each field,
/// the placeholder that the prompt's reply format shows, unless the
/// session's title holds that field's opening tag; the prompt begins with the
/// system identity and ends with `</summary>` (see also
/// `lemma_summary_prompt_shape`).
pub proof fn lemma_summary_prompt_placeholders(session_title: Seq<char>, observation_count: nat)
    ensures
        summary_prompt(session_title, observation_count).take(SYSTEM_IDENTITY@.len() as int)
            == SYSTEM_IDENTITY@,
        summary_prompt(session_title, observation_count).skip(
            summary_prompt(session_title, observation_count).len() - 11,
        ) == "</summary>\n"@,
        !contains_seq(session_title, open_tag("request"@)) ==> tag_content(
            summary_prompt(session_title, observation_count),
            "request"@,
        ) == "what the user asked for"@,
        !contains_seq(session_title, open_tag("investigated"@)) ==> tag_content(
            summary_prompt(session_title, observation_count),
            "investigated"@,
        ) == "what was investigated"@,
        !contains_seq(session_title, open_tag("learned"@)) ==> tag_content(
            summary_prompt(session_title, observation_count),
            "learned"@,
        ) == "what was learned"@,
        !contains_seq(session_title, open_tag("completed"@)) ==> tag_content(
            summary_prompt(session_title, observation_count),
            "completed"@,
        ) == "what was completed"@,
        !contains_seq(session_title, open_tag("next_steps"@)) ==> tag_content(
            summary_prompt(session_title, observation_count),
            "next_steps"@,
        ) == "suggested next steps"@,
        !contains_seq(session_title, open_tag("notes"@)) ==> tag_content(
            summary_prompt(session_title, observation_count),
            "notes"@,
        ) == "additional notes"@,
{
    lemma_summary_prompt_shape(session_title, observation_count);
    let x = summary_lead(session_title, observation_count);
    let f = SUMMARY_REPLY_FORMAT@;
    assert(summary_prompt(session_title, observation_count) == x + f);
    lemma_summary_tags_unquoted();
    lemma_reply_format_request();
    if !contains_seq(session_title, open_tag("request"@)) {
        lemma_summary_lead_no_start(session_title, observation_count, "request"@, f);
        lemma_tag_content_suffix(x, f, "request"@);
    }
    lemma_reply_format_investigated();
    if !contains_seq(session_title, open_tag("investigated"@)) {
        lemma_summary_lead_no_start(session_title, observation_count, "investigated"@, f);
        lemma_tag_content_suffix(x, f, "investigated"@);
    }
    lemma_reply_format_learned();
    if !contains_seq(session_title, open_tag("learned"@)) {
        lemma_summary_lead_no_start(session_title, observation_count, "learned"@, f);
        lemma_tag_content_suffix(x, f, "learned"@);
    }
    lemma_reply_format_completed();
    if !contains_seq(session_title, open_tag("completed"@)) {
        lemma_summary_lead_no_start(session_title, observation_count, "completed"@, f);
        lemma_tag_content_suffix(x, f, "completed"@);
    }
    lemma_reply_format_next_steps();
    if !contains_seq(session_title, open_tag("next_steps"@)) {
        lemma_summary_lead_no_start(session_title, observation_count, "next_steps"@, f);
        lemma_tag_content_suffix(x, f, "next_steps"@);
    }
    lemma_reply_format_notes();
    if !contains_seq(session_title, open_tag("notes"@)) {
        lemma_summary_lead_no_start(session_title, observation_count, "notes"@, f);
        lemma_tag_content_suffix(x, f, "notes"@);
    }
}

} // verus!
