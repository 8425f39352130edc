use vstd::prelude::*;
use crate::text::{
    spec_trim_seq, spec_lower_seq, spec_seq_contains, spec_find_sub, trim_str, to_lower_string,
    contains_sub, find_sub, lemma_find_sub_some,
};

verus! {

/// A transport command parsed out of free-form text: the action keyword,
/// an optional search query, and the trimmed original text.
pub struct ParsedCommand {
    pub action: String,
    pub query: Option<String>,
    pub raw: String,
}

/// What `normalize_command_text` returns: the text trimmed and
/// ASCII-lowered.
pub open spec fn spec_normalize_command_text(s: Seq<char>) -> Seq<char> {
    spec_lower_seq(spec_trim_seq(s))
}

/// Trims and ASCII-lowers command text.
pub fn normalize_command_text(text: &str) -> (r: String)
    ensures
        r@ == spec_normalize_command_text(text@),
{
    to_lower_string(trim_str(text))
}

/// What `extract_query` returns: the trimmed text after the first
/// occurrence of the key, unless that is empty or the key is absent.
pub open spec fn spec_extract_query(raw: Seq<char>, key: Seq<char>) -> Option<Seq<char>> {
    match spec_find_sub(raw, key) {
        Some(pos) => {
            let tail = spec_trim_seq(raw.subrange(pos + key.len(), raw.len() as int));
            if tail.len() == 0 {
                None
            } else {
                Some(tail)
            }
        },
        None => None,
    }
}

/// Returns what follows the first occurrence of `key` in `raw`, trimmed;
/// nothing if the key is absent or only whitespace follows it.
pub fn extract_query(raw: &str, key: &str) -> (r: Option<String>)
    ensures
        match r {
            Some(q) => spec_extract_query(raw@, key@) == Some(q@),
            None => spec_extract_query(raw@, key@) is None,
        },
{
    match find_sub(raw, key) {
        Some(pos) => {
            proof {
                lemma_find_sub_some(raw@, key@, pos as int);
            }
            let len: usize = raw.unicode_len();
            let kl: usize = key.unicode_len();
            let tail = trim_str(raw.substring_char(pos + kl, len));
            if tail.unicode_len() == 0 {
                None
            } else {
                Some(tail.to_owned())
            }
        },
        None => None,
    }
}

/// The action keyword a piece of normalized command text names.
pub open spec fn spec_command_action(n: Seq<char>) -> Seq<char> {
    if spec_seq_contains(n, "暂停"@) || spec_seq_contains(n, "pause"@) {
        "pause"@
    } else if spec_seq_contains(n, "停止"@) || spec_seq_contains(n, "stop"@) {
        "stop"@
    } else if spec_seq_contains(n, "下一曲"@) || spec_seq_contains(n, "next"@) {
        "next"@
    } else if spec_seq_contains(n, "上一曲"@) || spec_seq_contains(n, "previous"@) {
        "prev"@
    } else if spec_seq_contains(n, "继续"@) || spec_seq_contains(n, "resume"@) {
        "play"@
    } else if spec_seq_contains(n, "播放"@) || spec_seq_contains(n, "play"@) {
        "play"@
    } else {
        "unknown"@
    }
}

/// The query a play command carries: the text after the play keyword,
/// preferring the native keyword in the raw text over the normalized one.
pub open spec fn spec_command_query(raw: Seq<char>, n: Seq<char>) -> Option<Seq<char>> {
    if spec_command_action(n) == "play"@ {
        match spec_extract_query(raw, "播放"@) {
            Some(q) => Some(q),
            None => match spec_extract_query(n, "play "@) {
                Some(q) => Some(q),
                None => spec_extract_query(n, "play"@),
            },
        }
    } else {
        None
    }
}

/// Parses free-form command text: empty (after trimming) text parses to
/// nothing; otherwise the action is recognized from keywords in the
/// trimmed, lowered text, a play command may carry a query, and the
/// trimmed text itself is kept.
pub fn parse_command_text(text: &str) -> (r: Option<ParsedCommand>)
    ensures
        match r {
            None => spec_trim_seq(text@).len() == 0,
            Some(cmd) => {
                &&& spec_trim_seq(text@).len() > 0
                &&& cmd.raw@ == spec_trim_seq(text@)
                &&& cmd.action@ == spec_command_action(spec_normalize_command_text(text@))
                &&& (match cmd.query {
                    Some(q) => spec_command_query(
                        spec_trim_seq(text@),
                        spec_normalize_command_text(text@),
                    ) == Some(q@),
                    None => spec_command_query(
                        spec_trim_seq(text@),
                        spec_normalize_command_text(text@),
                    ) is None,
                })
            },
        },
{
    let raw = trim_str(text);
    if raw.unicode_len() == 0 {
        return None;
    }
    let normalized = to_lower_string(raw);
    let ns = normalized.as_str();
    let a_pause: bool = contains_sub(ns, "暂停") || contains_sub(ns, "pause");
    let a_stop: bool = contains_sub(ns, "停止") || contains_sub(ns, "stop");
    let a_next: bool = contains_sub(ns, "下一曲") || contains_sub(ns, "next");
    let a_prev: bool = contains_sub(ns, "上一曲") || contains_sub(ns, "previous");
    let a_resume: bool = contains_sub(ns, "继续") || contains_sub(ns, "resume");
    let a_play: bool = contains_sub(ns, "播放") || contains_sub(ns, "play");
    let action: &str = if a_pause {
        "pause"
    } else if a_stop {
        "stop"
    } else if a_next {
        "next"
    } else if a_prev {
        "prev"
    } else if a_resume || a_play {
        "play"
    } else {
        "unknown"
    };
    let is_play: bool = !a_pause && !a_stop && !a_next && !a_prev && (a_resume || a_play);
    proof {
        reveal_strlit("play");
        reveal_strlit("pause");
        reveal_strlit("stop");
        reveal_strlit("next");
        reveal_strlit("prev");
        reveal_strlit("unknown");
        assert("pause"@.len() != "play"@.len());
        assert("pause"@ != "play"@);
        assert("stop"@[0] != "play"@[0]);
        assert("stop"@ != "play"@);
        assert("next"@[0] != "play"@[0]);
        assert("next"@ != "play"@);
        assert("prev"@[1] != "play"@[1]);
        assert("prev"@ != "play"@);
        assert("unknown"@.len() != "play"@.len());
        assert("unknown"@ != "play"@);
        assert(is_play == (spec_command_action(ns@) == "play"@));
    }
    let query: Option<String> = if is_play {
        match extract_query(raw, "播放") {
            Some(q) => Some(q),
            None => match extract_query(ns, "play ") {
                Some(q) => Some(q),
                None => extract_query(ns, "play"),
            },
        }
    } else {
        None
    };
    Some(
        ParsedCommand {
            action: action.to_owned(),
            query,
            raw: raw.to_owned(),
        },
    )
}

} // verus!
