//! What holds of a whole credential file: its profiles are those of its
//! blocks, one by one, and a store that was read is written and read back
//! unchanged.

use crate::models::profile::ProfileView;
use crate::oci::config_parser::{
    built_profile, closed, initial_state, is_header, is_skipped, parsed_profiles, rendered, scan,
    step, FieldsView, ParseState,
};
use crate::oci::paths::{
    before_last_separator, expand_home, is_absolute, join, parent_dir, resolve, strip_separators,
};
use crate::oci::round_trip::{
    all_writable, ends_lines, has_no_header, is_one_line, is_plain, is_writable,
    lemma_one_section, lemma_round_trip, lemma_scan_body, lemma_sections_independent, opened,
    resolved_profiles, starts_with_header,
};
use crate::text::{
    index_of, is_space, lemma_index_of_bounds, lemma_index_of_unique, lemma_trim_end_shape,
    lemma_trim_start_shape, trim, trim_start,
};
use vstd::prelude::*;

verus! {

/// One block of a file: the line that opens a section, and the text after
/// that line up to the next line that opens one.
pub struct Block {
    pub header: Seq<char>,
    pub body: Seq<char>,
}

/// Whether `block` is a block: its first line is a header, and no line of
/// its body is one.
pub open spec fn is_block(block: Block) -> bool {
    is_one_line(block.header) && is_header(trim(block.header)) && has_no_header(block.body)
}

/// The text of a block.
pub open spec fn block_text(block: Block) -> Seq<char> {
    block.header + seq!['\n'] + block.body
}

/// The text of blocks that follow each other.
pub open spec fn blocks_text(blocks: Seq<Block>) -> Seq<char>
    decreases blocks.len(),
{
    if blocks.len() == 0 {
        Seq::empty()
    } else {
        blocks_text(blocks.drop_last()) + block_text(blocks.last())
    }
}

/// The name of a block: what stands between the brackets, trimmed.
pub open spec fn block_name(block: Block) -> Seq<char> {
    let line = trim(block.header);
    trim(line.subrange(1, line.len() - 1))
}

/// The values that the lines of a block give to the five required keys.
pub open spec fn block_fields(block: Block, config_dir: Seq<char>, home: Option<Seq<char>>) -> FieldsView {
    scan(opened(block_name(block)), block.body, config_dir, home).fields
}

/// The profile of a block, where the block is complete.
pub open spec fn block_profile(block: Block, config_dir: Seq<char>, home: Option<Seq<char>>) -> Seq<
    ProfileView,
> {
    match built_profile(
        block_name(block),
        block_fields(block, config_dir, home),
        config_dir,
        home,
    ) {
        Some(profile) => seq![profile],
        None => Seq::empty(),
    }
}

/// The profiles of blocks: one for each complete block, in the order of the
/// blocks.
pub open spec fn block_profiles(
    blocks: Seq<Block>,
    config_dir: Seq<char>,
    home: Option<Seq<char>>,
) -> Seq<ProfileView>
    decreases blocks.len(),
{
    if blocks.len() == 0 {
        Seq::empty()
    } else {
        block_profiles(blocks.drop_last(), config_dir, home) + block_profile(
            blocks.last(),
            config_dir,
            home,
        )
    }
}

/// Blocks whose last lines are ended make a text whose last line is ended.
proof fn lemma_blocks_end_lines(preamble: Seq<char>, blocks: Seq<Block>)
    requires
        ends_lines(preamble),
        forall|i: int| 0 <= i < blocks.len() ==> ends_lines((#[trigger] blocks[i]).body),
    ensures
        ends_lines(preamble + blocks_text(blocks)),
    decreases blocks.len(),
{
    if blocks.len() == 0 {
        assert(preamble + blocks_text(blocks) =~= preamble);
    } else {
        let last = blocks.last();
        let text = preamble + blocks_text(blocks);
        assert(ends_lines(blocks[blocks.len() - 1].body));
        assert(text.last() == block_text(last).last());
        if last.body.len() > 0 {
            assert(block_text(last).last() == last.body.last());
        }
    }
}

/// The profiles of a file are those of its blocks: exactly one for each
/// block that gives all five required keys, in the order of the blocks, and
/// nothing else. The file is the lines before the first header, then the
/// blocks; only the last block may lack the end of its last line.
pub proof fn lemma_whole_file(
    preamble: Seq<char>,
    blocks: Seq<Block>,
    config_path: Seq<char>,
    home: Option<Seq<char>>,
)
    requires
        has_no_header(preamble),
        ends_lines(preamble),
        forall|i: int| 0 <= i < blocks.len() ==> is_block(#[trigger] blocks[i]),
        forall|i: int| 0 <= i < blocks.len() - 1 ==> ends_lines((#[trigger] blocks[i]).body),
    ensures
        parsed_profiles(preamble + blocks_text(blocks), config_path, home) == block_profiles(
            blocks,
            parent_dir(config_path),
            home,
        ),
    decreases blocks.len(),
{
    let dir = parent_dir(config_path);
    if blocks.len() == 0 {
        assert(preamble + blocks_text(blocks) =~= preamble);
        lemma_scan_body(initial_state(), preamble, dir, home);
    } else {
        let front = blocks.drop_last();
        let last = blocks.last();
        assert(is_block(blocks[blocks.len() - 1]));
        assert forall|i: int| 0 <= i < front.len() implies is_block(#[trigger] front[i])
            && ends_lines(front[i].body) by {
            assert(front[i] == blocks[i]);
        }
        lemma_whole_file(preamble, front, config_path, home);
        lemma_blocks_end_lines(preamble, front);
        let a = preamble + blocks_text(front);
        let b = block_text(last);
        assert(preamble + blocks_text(blocks) =~= a + b);
        let n = last.header.len() as int;
        assert(b[n] == '\n');
        assert forall|i: int| 0 <= i < n implies #[trigger] b[i] != '\n' by {
            assert(b[i] == last.header[i]);
        }
        lemma_index_of_unique(b, '\n', n);
        assert(b.subrange(0, n) =~= last.header);
        assert(starts_with_header(b));
        lemma_sections_independent(a, b, config_path, home);
        lemma_one_section(last.header, last.body, config_path, home);
    }
}

/// Whether a path stays as it is when it is resolved once more.
pub open spec fn is_resolved(path: Seq<char>, config_dir: Seq<char>, home: Option<Seq<char>>) -> bool {
    resolve(path, config_dir, home) == path
}

/// Whether every profile of a list is writable and has a resolved key file.
pub open spec fn all_settled(
    profiles: Seq<ProfileView>,
    config_dir: Seq<char>,
    home: Option<Seq<char>>,
) -> bool {
    forall|i: int|
        0 <= i < profiles.len() ==> is_writable(#[trigger] profiles[i]) && is_resolved(
            profiles[i].key_file,
            config_dir,
            home,
        )
}

/// Whether a value that may be missing is plain where it is there.
pub open spec fn is_plain_if_some(value: Option<Seq<char>>) -> bool {
    value is Some ==> is_plain(value->0)
}

/// Whether all that a state holds was read from lines: its profiles are
/// settled, and the name and the values of its open section are plain.
pub open spec fn is_settled(state: ParseState, config_dir: Seq<char>, home: Option<Seq<char>>) -> bool {
    &&& all_settled(state.done, config_dir, home)
    &&& is_plain_if_some(state.section)
    &&& is_plain_if_some(state.fields.user)
    &&& is_plain_if_some(state.fields.tenancy)
    &&& is_plain_if_some(state.fields.region)
    &&& is_plain_if_some(state.fields.fingerprint)
    &&& is_plain_if_some(state.fields.key_file)
}

/// Whether paths that are resolved in this place come out plain and
/// absolute: the directory of the configuration file is absolute and lies on
/// one line, and the home directory is plain where it is known.
pub open spec fn is_settled_place(config_dir: Seq<char>, home: Option<Seq<char>>) -> bool {
    is_absolute(config_dir) && is_one_line(config_dir) && is_plain_if_some(home)
}

/// A part of one line is one line.
pub proof fn lemma_part_of_one_line(s: Seq<char>, from: int, to: int)
    requires
        is_one_line(s),
        0 <= from <= to <= s.len(),
    ensures
        is_one_line(s.subrange(from, to)),
{
    let part = s.subrange(from, to);
    assert forall|i: int| 0 <= i < part.len() implies #[trigger] part[i] != '\n' by {
        assert(part[i] == s[from + i]);
    }
}

/// What is left of one line after trimming is plain.
pub proof fn lemma_trim_is_plain(s: Seq<char>)
    requires
        is_one_line(s),
    ensures
        is_plain(trim(s)),
{
    lemma_trim_start_shape(s);
    let t = trim_start(s);
    lemma_part_of_one_line(s, s.len() - t.len(), s.len() as int);
    lemma_trim_end_shape(t);
    let u = trim(s);
    lemma_part_of_one_line(t, 0, u.len() as int);
    if u.len() > 0 {
        assert(u[0] == t[0]);
    }
}

/// A path without the separators at its end is a first part of the path.
proof fn lemma_strip_is_prefix(path: Seq<char>)
    ensures
        strip_separators(path).len() <= path.len(),
        strip_separators(path) == path.subrange(0, strip_separators(path).len() as int),
    decreases path.len(),
{
    if path.len() > 0 && path.last() == '/' {
        let rest = path.drop_last();
        lemma_strip_is_prefix(rest);
        assert(rest.subrange(0, strip_separators(rest).len() as int) =~= path.subrange(
            0,
            strip_separators(rest).len() as int,
        ));
    } else {
        assert(path =~= path.subrange(0, path.len() as int));
    }
}

/// A path up to its last separator is a first part of the path.
proof fn lemma_before_last_is_prefix(path: Seq<char>)
    ensures
        before_last_separator(path).len() <= path.len(),
        before_last_separator(path) == path.subrange(
            0,
            before_last_separator(path).len() as int,
        ),
    decreases path.len(),
{
    if path.len() == 0 {
        assert(path =~= path.subrange(0, 0));
    } else if path.last() == '/' {
        assert(path.drop_last() =~= path.subrange(0, path.len() - 1));
    } else {
        let rest = path.drop_last();
        lemma_before_last_is_prefix(rest);
        assert(rest.subrange(0, before_last_separator(rest).len() as int) =~= path.subrange(
            0,
            before_last_separator(rest).len() as int,
        ));
    }
}

/// The directory of an absolute path on one line is absolute and lies on
/// one line.
pub proof fn lemma_parent_dir_of_absolute(path: Seq<char>)
    requires
        is_absolute(path),
        is_one_line(path),
    ensures
        is_absolute(parent_dir(path)),
        is_one_line(parent_dir(path)),
{
    let named = strip_separators(path);
    lemma_strip_is_prefix(path);
    if named.len() > 0 {
        assert(named[0] == path[0]);
        assert(named.contains('/'));
        let head = before_last_separator(named);
        lemma_before_last_is_prefix(named);
        let dir = strip_separators(head);
        lemma_strip_is_prefix(head);
        if dir.len() > 0 {
            assert(dir[0] == head[0]);
            assert(head[0] == named[0]);
            assert forall|i: int| 0 <= i < dir.len() implies #[trigger] dir[i] != '\n' by {
                assert(dir[i] == head[i]);
                assert(head[i] == named[i]);
                assert(named[i] == path[i]);
            }
        }
    }
}

/// In a settled place a plain path resolves to a plain path, which stays as
/// it is when it is resolved once more.
pub proof fn lemma_resolve_settles(raw: Seq<char>, config_dir: Seq<char>, home: Option<Seq<char>>)
    requires
        is_plain(raw),
        is_settled_place(config_dir, home),
    ensures
        is_plain(resolve(raw, config_dir, home)),
        is_resolved(resolve(raw, config_dir, home), config_dir, home),
{
    let e = expand_home(raw, home);
    let k = resolve(raw, config_dir, home);
    if raw.len() > 0 && raw[0] == '~' && home is Some {
        let h = home->0;
        let rest = raw.drop_first();
        assert forall|i: int| 0 <= i < e.len() implies #[trigger] e[i] != '\n' by {
            if i < h.len() {
                assert(e[i] == h[i]);
            } else {
                assert(e[i] == rest[i - h.len()]);
                assert(rest[i - h.len()] == raw[i - h.len() + 1]);
            }
        }
        if e.len() > 0 {
            if rest.len() > 0 {
                assert(e.last() == rest.last());
                assert(rest.last() == raw.last());
            } else {
                assert(e =~= h);
            }
        }
    }
    assert(is_one_line(e));
    assert(e.len() > 0 ==> !is_space(e.last()));
    if is_absolute(e) {
        assert(k == e);
    } else if config_dir.last() == '/' {
        assert(k[0] == config_dir[0]);
        assert forall|i: int| 0 <= i < k.len() implies #[trigger] k[i] != '\n' by {
            if i < config_dir.len() {
                assert(k[i] == config_dir[i]);
            } else {
                assert(k[i] == e[i - config_dir.len()]);
            }
        }
        if e.len() > 0 {
            assert(k.last() == e.last());
        } else {
            assert(k =~= config_dir);
        }
    } else {
        let d = config_dir.push('/');
        assert(k[0] == config_dir[0]);
        assert forall|i: int| 0 <= i < k.len() implies #[trigger] k[i] != '\n' by {
            if i < config_dir.len() {
                assert(k[i] == config_dir[i]);
            } else if i == config_dir.len() {
                assert(k[i] == '/');
            } else {
                assert(k[i] == e[i - d.len()]);
            }
        }
        if e.len() > 0 {
            assert(k.last() == e.last());
        } else {
            assert(k =~= d);
        }
    }
    assert(is_absolute(k));
    assert(expand_home(k, home) == k);
    assert(join(config_dir, k) == k);
}

/// What is read from one more line leaves a settled state settled.
pub proof fn lemma_step_settled(
    state: ParseState,
    raw: Seq<char>,
    config_dir: Seq<char>,
    home: Option<Seq<char>>,
)
    requires
        is_settled(state, config_dir, home),
        is_settled_place(config_dir, home),
        is_one_line(raw),
    ensures
        is_settled(step(state, trim(raw), config_dir, home), config_dir, home),
{
    let line = trim(raw);
    lemma_trim_is_plain(raw);
    let next = step(state, line, config_dir, home);
    if is_skipped(line) {
    } else if is_header(line) {
        lemma_part_of_one_line(line, 1, line.len() - 1);
        lemma_trim_is_plain(line.subrange(1, line.len() - 1));
        lemma_closed_settled(state, config_dir, home);
    } else {
        let eq = index_of(line, '=');
        lemma_index_of_bounds(line, '=');
        if eq < line.len() {
            lemma_part_of_one_line(line, 0, eq);
            lemma_trim_is_plain(line.subrange(0, eq));
            lemma_part_of_one_line(line, eq + 1, line.len() as int);
            lemma_trim_is_plain(line.subrange(eq + 1, line.len() as int));
        }
    }
}

/// Closing the open section of a settled state gives settled profiles.
pub proof fn lemma_closed_settled(state: ParseState, config_dir: Seq<char>, home: Option<Seq<char>>)
    requires
        is_settled(state, config_dir, home),
        is_settled_place(config_dir, home),
    ensures
        all_settled(closed(state, config_dir, home), config_dir, home),
{
    let out = closed(state, config_dir, home);
    if state.section is Some {
        let built = built_profile(state.section->0, state.fields, config_dir, home);
        if built is Some {
            lemma_resolve_settles(state.fields.key_file->0, config_dir, home);
            assert forall|i: int| 0 <= i < out.len() implies is_writable(#[trigger] out[i])
                && is_resolved(out[i].key_file, config_dir, home) by {
                if i < state.done.len() {
                    assert(out[i] == state.done[i]);
                } else {
                    assert(out[i] == built->0);
                }
            }
        }
    }
}

/// What is read from a text leaves a settled state settled.
pub proof fn lemma_scan_settled(
    state: ParseState,
    text: Seq<char>,
    config_dir: Seq<char>,
    home: Option<Seq<char>>,
)
    requires
        is_settled(state, config_dir, home),
        is_settled_place(config_dir, home),
    ensures
        is_settled(scan(state, text, config_dir, home), config_dir, home),
    decreases text.len(),
{
    if text.len() > 0 {
        let end = index_of(text, '\n');
        lemma_index_of_bounds(text, '\n');
        let raw = text.subrange(0, end);
        assert forall|i: int| 0 <= i < raw.len() implies #[trigger] raw[i] != '\n' by {
            assert(raw[i] == text[i]);
        }
        lemma_step_settled(state, raw, config_dir, home);
        if 0 <= end < text.len() {
            lemma_scan_settled(
                step(state, trim(raw), config_dir, home),
                text.subrange(end + 1, text.len() as int),
                config_dir,
                home,
            );
        }
    }
}

/// The profiles of a file are writable and their key files resolved, where
/// the file's own path is absolute and on one line and the home directory
/// is plain.
pub proof fn lemma_parsed_profiles_settled(
    content: Seq<char>,
    config_path: Seq<char>,
    home: Option<Seq<char>>,
)
    requires
        is_absolute(config_path),
        is_one_line(config_path),
        is_plain_if_some(home),
    ensures
        all_settled(
            parsed_profiles(content, config_path, home),
            parent_dir(config_path),
            home,
        ),
{
    let dir = parent_dir(config_path);
    lemma_parent_dir_of_absolute(config_path);
    lemma_scan_settled(initial_state(), content, dir, home);
    lemma_closed_settled(scan(initial_state(), content, dir, home), dir, home);
}

/// A store that was read is a fixed point of writing and reading: the
/// profiles of a file, written and read back at the same path with the same
/// home directory, come out equal in every field, the key file among them.
pub proof fn lemma_parsed_store_is_fixed_point(
    content: Seq<char>,
    config_path: Seq<char>,
    home: Option<Seq<char>>,
)
    requires
        is_absolute(config_path),
        is_one_line(config_path),
        is_plain_if_some(home),
    ensures
        parsed_profiles(
            rendered(parsed_profiles(content, config_path, home)),
            config_path,
            home,
        ) == parsed_profiles(content, config_path, home),
{
    let dir = parent_dir(config_path);
    let store = parsed_profiles(content, config_path, home);
    lemma_parsed_profiles_settled(content, config_path, home);
    assert(all_writable(store));
    lemma_round_trip(store, config_path, home);
    assert(resolved_profiles(store, dir, home) =~= store);
}

} // verus!
