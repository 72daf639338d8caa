//! The repository indexer's judgement over hook files.
//!
//! The indexer walks the repository root and keeps a `post-receive` hook
//! installed in every bare repository. The walking and the writing are
//! I/O; what is decided here, and proved, is the exact text of the hook
//! and the judgement over an existing file: a file of ours with an old
//! version is replaced, one with the current version — in particular one
//! we just wrote — is left alone, and a foreign file without our marker
//! is never touched.

use vstd::prelude::*;
use vstd::string::*;

use crate::strutil::{
    all_digits, dec_digits, find_char_from, is_space, lemma_dec_digits_are_digits,
    lemma_parse_of_dec, lemma_trim_end_at, lemma_trim_start_at, parse_digits, parse_u64, split_on,
    split_spec, starts_with, trim_spaces, trim_spec, u64_to_string,
};

verus! {

/// The version of the hook text this agent writes.
pub const HOOK_FILE_VERSION: u64 = 1;

/// The words that open the marker line of a generated hook.
pub open spec fn marker_prefix() -> Seq<char> {
    "# minicd::hookfile_version "@
}

/// The whole marker line of the current hook text.
pub open spec fn hook_marker_line() -> Seq<char> {
    marker_prefix() + dec_digits(HOOK_FILE_VERSION as nat)
}

/// The exact text of the hook this agent installs: on every pushed ref
/// it posts `<repo-path> <new-commit> <ref-name>` to the agent's
/// endpoint on `port`.
pub open spec fn hook_body_spec(repo_path: Seq<char>, port: u16) -> Seq<char> {
    "#!/bin/bash\n# This file has been auto-generated by minicd.\n"@ + hook_marker_line()
        + "\n\nwhile read old_commit new_commit ref_name; do\n    curl -X POST http://127.0.0.1:"@
        + dec_digits(port as nat) + "/api/postreceive \\\n        -d \""@ + repo_path
        + " $new_commit $ref_name\"\ndone\n"@
}

/// Does this line carry the marker: the prefix, then a version number?
pub open spec fn is_marker_line(l: Seq<char>) -> bool {
    let p = marker_prefix();
    &&& l.len() >= p.len()
    &&& l.subrange(0, p.len() as int) == p
    &&& {
        let rest = trim_spec(l.subrange(p.len() as int, l.len() as int));
        &&& rest.len() > 0
        &&& all_digits(rest)
        &&& parse_digits(rest) <= u64::MAX
    }
}

/// The version the marker line states.
pub open spec fn marker_line_version(l: Seq<char>) -> nat {
    parse_digits(trim_spec(l.subrange(marker_prefix().len() as int, l.len() as int)))
}

/// The version of the first marker line among the lines from `i` on.
pub open spec fn marker_in_lines(lines: Seq<Seq<char>>, i: int) -> Option<nat>
    decreases lines.len() - i,
{
    if i < 0 || i >= lines.len() {
        None
    } else if is_marker_line(lines[i]) {
        Some(marker_line_version(lines[i]))
    } else {
        marker_in_lines(lines, i + 1)
    }
}

/// The hook version a file's content declares, if any line carries the
/// marker.
pub open spec fn marker_version_spec(content: Seq<char>) -> Option<nat> {
    marker_in_lines(split_spec(content, '\n'), 0)
}

/// What the indexer does to a repository's `post-receive` file.
#[derive(Clone, Copy, Debug, PartialEq, Eq, Structural)]
pub enum HookAction {
    /// No file: write the hook.
    Create,
    /// Our marker with an older version: write the current hook over it.
    Replace,
    /// Our current hook, or a foreign file: leave it alone.
    Leave,
}

/// The judgement over what stands at the hook path: create when nothing
/// does, replace only our own outdated text, and never touch a file
/// without our marker.
pub open spec fn hook_decision_spec(existing: Option<Seq<char>>) -> HookAction {
    match existing {
        None => HookAction::Create,
        Some(content) => match marker_version_spec(content) {
            None => HookAction::Leave,
            Some(v) => if v < HOOK_FILE_VERSION as nat {
                HookAction::Replace
            } else {
                HookAction::Leave
            },
        },
    }
}

/// The hook text for one repository, exactly as `hook_body_spec` lays it
/// out.
pub fn hook_body(repo_path: &str, port: u16) -> (r: String)
    ensures
        r@ == hook_body_spec(repo_path@, port),
{
    let mut s = String::new();
    s.append("#!/bin/bash\n# This file has been auto-generated by minicd.\n");
    s.append("# minicd::hookfile_version ");
    s.append(u64_to_string(HOOK_FILE_VERSION).as_str());
    s.append("\n\nwhile read old_commit new_commit ref_name; do\n    curl -X POST http://127.0.0.1:");
    s.append(u64_to_string(port as u64).as_str());
    s.append("/api/postreceive \\\n        -d \"");
    s.append(repo_path);
    s.append(" $new_commit $ref_name\"\ndone\n");
    proof {
        assert(s@ =~= hook_body_spec(repo_path@, port));
    }
    s
}

/// The hook version the content declares, if any of its lines carries
/// the marker.
pub fn marker_version(content: &str) -> (r: Option<u64>)
    ensures
        match r {
            Some(v) => marker_version_spec(content@) == Some(v as nat),
            None => marker_version_spec(content@) is None,
        },
{
    let lines = split_on(content, '\n');
    let ghost glines = split_spec(content@, '\n');
    let prefix = "# minicd::hookfile_version ";
    let plen = prefix.unicode_len();
    let mut i: usize = 0;
    while i < lines.len()
        invariant
            glines == split_spec(content@, '\n'),
            lines.deep_view() == glines,
            prefix@ == marker_prefix(),
            plen == prefix@.len(),
            0 <= i <= lines@.len(),
            lines@.len() == glines.len(),
            marker_in_lines(glines, 0) == marker_in_lines(glines, i as int),
        decreases lines@.len() - i,
    {
        proof {
            assert(lines.deep_view()[i as int] == lines@[i as int]@);
        }
        let line = lines[i].as_str();
        let llen = line.unicode_len();
        if starts_with(line, prefix) {
            let rest = trim_spaces(line.substring_char(plen, llen));
            match parse_u64(rest) {
                Some(v) => {
                    proof {
                        assert(is_marker_line(glines[i as int]));
                        assert(marker_line_version(glines[i as int]) == v as nat);
                    }
                    return Some(v);
                },
                None => {
                    proof {
                        assert(!is_marker_line(glines[i as int]));
                    }
                },
            }
        } else {
            proof {
                assert(!is_marker_line(glines[i as int]));
            }
        }
        i = i + 1;
    }
    None
}

/// The indexer's judgement over what stands at the hook path.
pub fn hook_decision(existing: Option<&str>) -> (r: HookAction)
    ensures
        r == hook_decision_spec(
            match existing {
                Some(c) => Some(c@),
                None => None,
            },
        ),
{
    match existing {
        None => HookAction::Create,
        Some(content) => match marker_version(content) {
            None => HookAction::Leave,
            Some(v) => {
                if v < HOOK_FILE_VERSION {
                    HookAction::Replace
                } else {
                    HookAction::Leave
                }
            },
        },
    }
}

/// When `find_char_from` must answer a particular position.
proof fn lemma_find_char_at(s: Seq<char>, c: char, i: int, j: int)
    requires
        0 <= i <= j < s.len(),
        s[j] == c,
        forall|k: int| i <= k < j ==> s[k] != c,
    ensures
        find_char_from(s, c, i) == Some(j),
    decreases j - i,
{
    if i < j {
        lemma_find_char_at(s, c, i + 1, j);
    }
}

/// A newline-free line followed by a newline splits off whole.
proof fn lemma_split_line(line: Seq<char>, rest: Seq<char>)
    requires
        forall|k: int| 0 <= k < line.len() ==> #[trigger] line[k] != '\n',
    ensures
        split_spec(line + seq!['\n'] + rest, '\n') == seq![line] + split_spec(rest, '\n'),
{
    let s = line + seq!['\n'] + rest;
    assert(s[line.len() as int] == '\n');
    assert forall|k: int| 0 <= k < line.len() implies s[k] != '\n' by {
        assert(s[k] == line[k]);
    }
    lemma_find_char_at(s, '\n', 0, line.len() as int);
    assert(s.subrange(0, line.len() as int) =~= line);
    assert(s.subrange(line.len() as int + 1, s.len() as int) =~= rest);
}

/// A string of digits has no spaces around it to trim.
proof fn lemma_trim_digits(s: Seq<char>)
    requires
        s.len() > 0,
        all_digits(s),
    ensures
        trim_spec(s) == s,
{
    assert(!is_space(s[0]));
    lemma_trim_start_at(s, 0);
    assert(s.subrange(0, s.len() as int) =~= s);
    assert(!is_space(s[s.len() - 1]));
    lemma_trim_end_at(s, s.len() as int);
}

/// Installing the hook is idempotent: the text one tick writes carries
/// the current marker, so the next tick's judgement over it is to leave
/// it alone — the tree does not change again.
pub proof fn lemma_hook_install_idempotent(repo_path: Seq<char>, port: u16)
    ensures
        marker_version_spec(hook_body_spec(repo_path, port)) == Some(HOOK_FILE_VERSION as nat),
        hook_decision_spec(Some(hook_body_spec(repo_path, port))) == HookAction::Leave,
{
    reveal_strlit("#!/bin/bash\n# This file has been auto-generated by minicd.\n");
    reveal_strlit("#!/bin/bash");
    reveal_strlit("# This file has been auto-generated by minicd.");
    reveal_strlit("# minicd::hookfile_version ");
    reveal_strlit("\n\nwhile read old_commit new_commit ref_name; do\n    curl -X POST http://127.0.0.1:");
    reveal_strlit("\nwhile read old_commit new_commit ref_name; do\n    curl -X POST http://127.0.0.1:");
    let body = hook_body_spec(repo_path, port);
    let l0 = "#!/bin/bash"@;
    let l1 = "# This file has been auto-generated by minicd."@;
    let ml = hook_marker_line();
    let tail = "\nwhile read old_commit new_commit ref_name; do\n    curl -X POST http://127.0.0.1:"@
        + dec_digits(port as nat) + "/api/postreceive \\\n        -d \""@ + repo_path
        + " $new_commit $ref_name\"\ndone\n"@;
    lemma_dec_digits_are_digits(HOOK_FILE_VERSION as nat);
    lemma_dec_digits_are_digits(port as nat);
    assert(body =~= l0 + seq!['\n'] + (l1 + seq!['\n'] + (ml + seq!['\n'] + tail)));
    assert forall|k: int| 0 <= k < ml.len() implies #[trigger] ml[k] != '\n' by {
        if k >= marker_prefix().len() {
            let d = dec_digits(HOOK_FILE_VERSION as nat);
            assert(ml[k] == d[k - marker_prefix().len()]);
            assert(crate::strutil::is_digit(d[k - marker_prefix().len()]));
        }
    }
    lemma_split_line(l0, l1 + seq!['\n'] + (ml + seq!['\n'] + tail));
    lemma_split_line(l1, ml + seq!['\n'] + tail);
    lemma_split_line(ml, tail);
    let lines = split_spec(body, '\n');
    assert(lines =~= seq![l0] + (seq![l1] + (seq![ml] + split_spec(tail, '\n'))));
    assert(lines[0] == l0);
    assert(lines[1] == l1);
    assert(lines[2] == ml);
    assert(!is_marker_line(l0));
    assert(l1[2] != marker_prefix()[2]);
    assert(l1.subrange(0, marker_prefix().len() as int)[2] == l1[2]);
    assert(!is_marker_line(l1));
    let d = dec_digits(HOOK_FILE_VERSION as nat);
    assert(ml.subrange(0, marker_prefix().len() as int) =~= marker_prefix());
    assert(ml.subrange(marker_prefix().len() as int, ml.len() as int) =~= d);
    lemma_trim_digits(d);
    lemma_parse_of_dec(HOOK_FILE_VERSION as nat);
    assert(is_marker_line(ml));
    assert(marker_line_version(ml) == HOOK_FILE_VERSION as nat);
    reveal_with_fuel(marker_in_lines, 4);
    assert(marker_in_lines(lines, 0) == Some(HOOK_FILE_VERSION as nat));
}

/// A hook file with a foreign body — no marker anywhere in it — is never
/// overwritten.
pub proof fn lemma_foreign_hook_untouched(content: Seq<char>)
    requires
        marker_version_spec(content) is None,
    ensures
        hook_decision_spec(Some(content)) == HookAction::Leave,
{
}

} // verus!
