//! The stored configuration: one line that names the backup root.

use vstd::prelude::*;
use crate::text::{
    first_line, first_line_of, is_white_space, lemma_line_end, lemma_trim_end_shape,
    lemma_trim_start, lemma_trimmed_fixed, lemma_trimmed_twice, line_end, starts_with, trim,
    trim_end, trim_start, trimmed,
};

verus! {

/// What a configuration must hold to be taken: the key `backupPath`, a colon
/// and a space at its very start, then a path that begins with `/` and goes
/// on with at least one more character on the same line.
pub open spec fn is_config(data: Seq<char>) -> bool {
    &&& "backupPath: /"@.is_prefix_of(data)
    &&& data.len() > "backupPath: /"@.len()
    &&& data["backupPath: /"@.len() as int] != '\n'
}

/// The backup root that a configuration names: what follows the key, the
/// colon and the space on the first line, without the white space at its
/// ends. A configuration that does not begin with the key names none.
pub open spec fn configured_path(data: Seq<char>) -> Option<Seq<char>> {
    if "backupPath: "@.is_prefix_of(data) {
        Some(trimmed(first_line(data).skip("backupPath: "@.len() as int)))
    } else {
        None
    }
}

/// The backup root that an answer to the prompt stands for: the answer
/// without the white space round it, or `/tmp/yamlBackup` where that is
/// empty.
pub open spec fn resolved_path(answer: Seq<char>) -> Seq<char> {
    if trimmed(answer).len() == 0 {
        "/tmp/yamlBackup"@
    } else {
        trimmed(answer)
    }
}

/// The configuration that names a backup root.
pub open spec fn config_text(path: Seq<char>) -> Seq<char> {
    "backupPath: "@ + path
}

/// `regex::Regex::new` and `regex::Regex::is_match`, for the one pattern
/// that the configuration is held to.
///
/// Trusted: `^` stands for the start of the text, the characters up to `/`
/// stand for themselves, `.` stands for any character but a line feed, and
/// `+` asks for at least one; a match need not reach the end of the text.
#[verifier::external_body]
pub(crate) fn regex_is_match(pattern: &str, text: &str) -> (r: bool)
    requires
        pattern@ == "^backupPath: /.+"@,
    ensures
        r == is_config(text@),
{
    regex::Regex::new(pattern).unwrap().is_match(text)
}

/// Tells whether a configuration can be taken.
pub fn config_is_valid(data: &str) -> (r: bool)
    ensures
        r == is_config(data@),
{
    regex_is_match("^backupPath: /.+", data)
}

/// The key, the colon and the space stand on the first line of a
/// configuration that begins with them.
pub proof fn lemma_key_on_first_line(data: Seq<char>)
    requires
        "backupPath: "@.is_prefix_of(data),
    ensures
        "backupPath: "@.len() == 12,
        line_end(data) >= 12,
{
    reveal_strlit("backupPath: ");
    let key = "backupPath: "@;
    lemma_line_end(data);
    let at = line_end(data);
    if at < 12 {
        assert(data.subrange(0, 12)[at] == key[at]);
    }
}

/// The backup root that a configuration names, if it begins with the key.
pub fn backup_path(data: &str) -> (r: Option<String>)
    ensures
        match r {
            Some(path) => configured_path(data@) == Some(path@),
            None => configured_path(data@) is None,
        },
{
    if !starts_with(data, "backupPath: ") {
        return None;
    }
    let line = first_line_of(data);
    proof {
        lemma_key_on_first_line(data@);
        lemma_line_end(data@);
    }
    let rest = line.substring_char(12, line.unicode_len());
    proof {
        assert(rest@ =~= first_line(data@).skip(12));
    }
    Some(trim(rest))
}

/// The backup root that an answer to the prompt stands for.
pub fn resolve_backup_path(answer: &str) -> (path: String)
    ensures
        path@ == resolved_path(answer@),
{
    let given = trim(answer);
    if given.as_str().is_empty() {
        String::from_str("/tmp/yamlBackup")
    } else {
        given
    }
}

/// The configuration that names a backup root.
pub fn config_line(path: &str) -> (line: String)
    ensures
        line@ == config_text(path@),
{
    let mut line = String::from_str("backupPath: ");
    line.append(path);
    line
}

/// The backup root that the stored configuration gives: the one it names,
/// where there is a configuration and it can be taken. Otherwise there is
/// none, and the root has to be asked for.
pub open spec fn stored_path(existing: Option<&str>) -> Option<Seq<char>> {
    match existing {
        Some(data) => if is_config(data@) {
            configured_path(data@)
        } else {
            None
        },
        None => None,
    }
}

/// The backup root that the stored configuration gives, if any: there is one
/// exactly when there is a configuration that can be taken, and it begins
/// with `/`.
pub fn stored_backup_path(existing: Option<&str>) -> (r: Option<String>)
    ensures
        match r {
            Some(path) => stored_path(existing) == Some(path@) && path@.len() > 0 && path@[0]
                == '/',
            None => stored_path(existing) is None,
        },
        r is Some <==> (existing matches Some(data) && is_config(data@)),
{
    match existing {
        Some(data) => {
            if config_is_valid(data) {
                proof {
                    law_valid_config_names_a_path(data@);
                }
                backup_path(data)
            } else {
                None
            }
        },
        None => None,
    }
}

/// The configuration written for a root can be taken again exactly when the
/// root begins with `/` and goes on with a character that is no line feed.
pub proof fn law_written_config_is_taken(path: Seq<char>)
    ensures
        is_config(config_text(path)) <==> (path.len() >= 2 && path[0] == '/' && path[1] != '\n'),
{
    reveal_strlit("backupPath: /");
    reveal_strlit("backupPath: ");
    let key = "backupPath: "@;
    let head = "backupPath: /"@;
    let text = config_text(path);
    assert(key.len() == 12 && head.len() == 13);
    if path.len() >= 2 && path[0] == '/' && path[1] != '\n' {
        assert(text[13] == path[1]);
        assert(head =~= text.subrange(0, 13)) by {
            assert forall|i: int| 0 <= i < 13 implies head[i] == text.subrange(0, 13)[i] by {
                if i < 12 {
                    assert(text[i] == key[i]);
                } else {
                    assert(text[i] == path[0]);
                }
            }
        }
    }
    if is_config(text) {
        assert(text.len() == 12 + path.len());
        assert(text.subrange(0, 13)[12] == head[12]);
        assert(text[12] == path[0]);
        assert(text[13] == path[1]);
    }
}

/// A blank answer to the prompt stands for the default root.
pub proof fn law_blank_answer_is_default(answer: Seq<char>)
    requires
        forall|i: int| 0 <= i < answer.len() ==> is_white_space(#[trigger] answer[i]),
    ensures
        resolved_path(answer) == "/tmp/yamlBackup"@,
{
    lemma_trim_start(answer, answer.len() as int);
    assert(answer.subrange(answer.len() as int, answer.len() as int) =~= Seq::<char>::empty());
}

/// A root that is written is read back whole: for every root on one line
/// that neither begins nor ends with white space, the configuration written
/// for it names it.
pub proof fn law_written_config_is_read_back(path: Seq<char>)
    requires
        !path.contains('\n'),
        trimmed(path) == path,
    ensures
        configured_path(config_text(path)) == Some(path),
{
    reveal_strlit("backupPath: ");
    let key = "backupPath: "@;
    let text = config_text(path);
    assert(key =~= text.subrange(0, 12));
    lemma_line_end(text);
    let at = line_end(text);
    if at < text.len() {
        if at < 12 {
            assert(text[at] == key[at]);
        } else {
            assert(text[at] == path[at - 12]);
            assert(path.contains(path[at - 12]));
        }
    }
    assert(first_line(text).skip(12) =~= path);
}

/// A configuration that can be taken names a root, and that root begins with
/// `/`.
pub proof fn law_valid_config_names_a_path(data: Seq<char>)
    requires
        is_config(data),
    ensures
        configured_path(data) matches Some(path) && path.len() > 0 && path[0] == '/',
{
    reveal_strlit("backupPath: ");
    reveal_strlit("backupPath: /");
    let key = "backupPath: "@;
    let head = "backupPath: /"@;
    assert(key =~= data.subrange(0, 12)) by {
        assert forall|i: int| 0 <= i < 12 implies key[i] == data.subrange(0, 12)[i] by {
            assert(data.subrange(0, 13)[i] == head[i]);
        }
    }
    assert(data.subrange(0, 13)[12] == head[12]);
    lemma_key_on_first_line(data);
    lemma_line_end(data);
    let rest = first_line(data).skip(12);
    assert(line_end(data) >= 13);
    assert(rest[0] == '/');
    lemma_trim_end_shape(rest);
    assert(trim_start(rest) == rest);
    assert(trim_end(rest)[0] == rest[0]);
}

/// The root that stands for an answer neither begins nor ends with white
/// space.
pub proof fn law_resolved_path_is_trimmed(answer: Seq<char>)
    ensures
        trimmed(resolved_path(answer)) == resolved_path(answer),
{
    if trimmed(answer).len() == 0 {
        reveal_strlit("/tmp/yamlBackup");
        lemma_trimmed_fixed("/tmp/yamlBackup"@);
    } else {
        lemma_trimmed_twice(answer);
    }
}

/// The root that stands for an answer on one line is read back whole from
/// the configuration written for it.
pub proof fn law_prompted_root_is_read_back(answer: Seq<char>)
    requires
        !resolved_path(answer).contains('\n'),
    ensures
        configured_path(config_text(resolved_path(answer))) == Some(resolved_path(answer)),
{
    law_resolved_path_is_trimmed(answer);
    law_written_config_is_read_back(resolved_path(answer));
}

} // verus!
