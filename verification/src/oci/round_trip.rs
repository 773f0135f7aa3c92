//! What holds of the credential file as a whole: text that was written is
//! read back as it was, and sections are read independently of each other.

use crate::models::profile::ProfileView;
use crate::oci::config_parser::{
    built_profile, closed, initial_state, is_header, is_skipped, no_fields, parsed_profiles,
    rendered, rendered_section, scan, set_field, step, FieldsView, ParseState,
};
use crate::oci::paths::{parent_dir, resolve};
use crate::text::{
    index_of, is_trimmed, lemma_index_of_bounds, lemma_index_of_unique, lemma_trim_of_trimmed, trim,
};
use vstd::prelude::*;

verus! {

/// Whether `s` holds no line feed.
pub open spec fn is_one_line(s: Seq<char>) -> bool {
    forall|i: int| 0 <= i < s.len() ==> #[trigger] s[i] != '\n'
}

/// Whether a value is read back as it is written: it lies on one line and
/// neither starts nor ends with white space.
pub open spec fn is_plain(s: Seq<char>) -> bool {
    is_one_line(s) && is_trimmed(s)
}

/// Whether every field of a profile is read back as it is written.
pub open spec fn is_writable(p: ProfileView) -> bool {
    is_plain(p.name) && is_plain(p.user) && is_plain(p.tenancy) && is_plain(p.region) && is_plain(
        p.fingerprint,
    ) && is_plain(p.key_file)
}

/// Whether every profile of a list is writable.
pub open spec fn all_writable(profiles: Seq<ProfileView>) -> bool {
    forall|i: int| 0 <= i < profiles.len() ==> is_writable(#[trigger] profiles[i])
}

/// A profile with its key file's path resolved.
pub open spec fn resolved_profile(p: ProfileView, config_dir: Seq<char>, home: Option<Seq<char>>) -> ProfileView {
    ProfileView { key_file: resolve(p.key_file, config_dir, home), ..p }
}

/// A list of profiles, each with its key file's path resolved.
pub open spec fn resolved_profiles(
    profiles: Seq<ProfileView>,
    config_dir: Seq<char>,
    home: Option<Seq<char>>,
) -> Seq<ProfileView> {
    Seq::new(profiles.len(), |i: int| resolved_profile(profiles[i], config_dir, home))
}

/// The values of a section that gives a profile's five fields.
pub open spec fn fields_of(p: ProfileView) -> FieldsView {
    FieldsView {
        user: Some(p.user),
        tenancy: Some(p.tenancy),
        region: Some(p.region),
        fingerprint: Some(p.fingerprint),
        key_file: Some(p.key_file),
    }
}

/// Whether a text is empty or ends with a line feed.
pub open spec fn ends_lines(text: Seq<char>) -> bool {
    text.len() == 0 || text.last() == '\n'
}

/// Reading a text that starts with a line reads the line, then the rest.
pub proof fn lemma_scan_line(
    state: ParseState,
    line: Seq<char>,
    rest: Seq<char>,
    config_dir: Seq<char>,
    home: Option<Seq<char>>,
)
    requires
        is_one_line(line),
    ensures
        scan(state, line + seq!['\n'] + rest, config_dir, home) == scan(
            step(state, trim(line), config_dir, home),
            rest,
            config_dir,
            home,
        ),
{
    let text = line + seq!['\n'] + rest;
    let n = line.len() as int;
    assert(text[n] == '\n');
    assert forall|i: int| 0 <= i < n implies #[trigger] text[i] != '\n' by {
        assert(text[i] == line[i]);
    }
    lemma_index_of_unique(text, '\n', n);
    assert(text.subrange(0, n) =~= line);
    assert(text.subrange(n + 1, text.len() as int) =~= rest);
}

/// Reading two texts in a row, the first of which ends its last line, reads
/// the first and goes on with the second.
pub proof fn lemma_scan_concat(
    state: ParseState,
    a: Seq<char>,
    b: Seq<char>,
    config_dir: Seq<char>,
    home: Option<Seq<char>>,
)
    requires
        ends_lines(a),
    ensures
        scan(state, a + b, config_dir, home) == scan(
            scan(state, a, config_dir, home),
            b,
            config_dir,
            home,
        ),
    decreases a.len(),
{
    if a.len() == 0 {
        assert(a + b =~= b);
    } else {
        lemma_index_of_bounds(a, '\n');
        let e = index_of(a, '\n');
        if e >= a.len() {
            assert(a[a.len() - 1] != '\n');
        }
        let line = a.subrange(0, e);
        let tail = a.subrange(e + 1, a.len() as int);
        assert(a =~= line + seq!['\n'] + tail);
        assert(a + b =~= line + seq!['\n'] + (tail + b));
        assert forall|i: int| 0 <= i < line.len() implies #[trigger] line[i] != '\n' by {
            assert(line[i] == a[i]);
        }
        lemma_scan_line(state, line, tail, config_dir, home);
        lemma_scan_line(state, line, tail + b, config_dir, home);
        if tail.len() > 0 {
            assert(tail.last() == a.last());
        }
        lemma_scan_concat(step(state, trim(line), config_dir, home), tail, b, config_dir, home);
    }
}

/// A header line with a plain name closes the open section and opens the
/// section of that name.
pub proof fn lemma_step_header(
    state: ParseState,
    name: Seq<char>,
    config_dir: Seq<char>,
    home: Option<Seq<char>>,
)
    requires
        is_plain(name),
    ensures
        is_one_line(seq!['['] + name + seq![']']),
        step(state, trim(seq!['['] + name + seq![']']), config_dir, home) == (ParseState {
            done: closed(state, config_dir, home),
            section: Some(name),
            fields: no_fields(),
        }),
{
    let line = seq!['['] + name + seq![']'];
    assert(line[0] == '[');
    assert(line.last() == ']');
    assert(is_trimmed(line));
    lemma_trim_of_trimmed(line);
    assert(line.subrange(1, line.len() - 1) =~= name);
    lemma_trim_of_trimmed(name);
    assert forall|i: int| 0 <= i < line.len() implies #[trigger] line[i] != '\n' by {
        if 0 < i < line.len() - 1 {
            assert(line[i] == name[i - 1]);
        }
    }
}

/// A line `key=value` with a plain value gives the key that value, where the
/// key is a word that starts neither a comment nor a header.
pub proof fn lemma_step_pair(
    state: ParseState,
    key: Seq<char>,
    value: Seq<char>,
    config_dir: Seq<char>,
    home: Option<Seq<char>>,
)
    requires
        key.len() > 0,
        is_plain(key),
        key[0] != '#',
        key[0] != '[',
        forall|i: int| 0 <= i < key.len() ==> #[trigger] key[i] != '=',
        is_plain(value),
    ensures
        is_one_line(key + seq!['='] + value),
        step(state, trim(key + seq!['='] + value), config_dir, home) == (ParseState {
            fields: set_field(state.fields, key, value),
            ..state
        }),
{
    let line = key + seq!['='] + value;
    let k = key.len() as int;
    assert(line[0] == key[0]);
    assert(line[k] == '=');
    if value.len() > 0 {
        assert(line.last() == value.last());
    } else {
        assert(line.last() == '=');
    }
    assert(is_trimmed(line));
    lemma_trim_of_trimmed(line);
    assert forall|i: int| 0 <= i < k implies #[trigger] line[i] != '=' by {
        assert(line[i] == key[i]);
    }
    lemma_index_of_unique(line, '=', k);
    assert(line.subrange(0, k) =~= key);
    assert(line.subrange(k + 1, line.len() as int) =~= value);
    lemma_trim_of_trimmed(key);
    lemma_trim_of_trimmed(value);
    assert forall|i: int| 0 <= i < line.len() implies #[trigger] line[i] != '\n' by {
        if i < k {
            assert(line[i] == key[i]);
        } else if i > k {
            assert(line[i] == value[i - k - 1]);
        }
    }
}

/// What the five keys are made of.
proof fn lemma_keys()
    ensures
        "user"@ == seq!['u', 's', 'e', 'r'],
        "tenancy"@ == seq!['t', 'e', 'n', 'a', 'n', 'c', 'y'],
        "region"@ == seq!['r', 'e', 'g', 'i', 'o', 'n'],
        "fingerprint"@ == seq!['f', 'i', 'n', 'g', 'e', 'r', 'p', 'r', 'i', 'n', 't'],
        "key_file"@ == seq!['k', 'e', 'y', '_', 'f', 'i', 'l', 'e'],
        "user="@ == "user"@ + seq!['='],
        "tenancy="@ == "tenancy"@ + seq!['='],
        "region="@ == "region"@ + seq!['='],
        "fingerprint="@ == "fingerprint"@ + seq!['='],
        "key_file="@ == "key_file"@ + seq!['='],
        "["@ == seq!['['],
        "]\n"@ == seq![']', '\n'],
        "\n"@ == seq!['\n'],
{
    reveal_strlit("user");
    reveal_strlit("tenancy");
    reveal_strlit("region");
    reveal_strlit("fingerprint");
    reveal_strlit("key_file");
    reveal_strlit("user=");
    reveal_strlit("tenancy=");
    reveal_strlit("region=");
    reveal_strlit("fingerprint=");
    reveal_strlit("key_file=");
    reveal_strlit("[");
    reveal_strlit("]\n");
    reveal_strlit("\n");
    assert("user"@ =~= seq!['u', 's', 'e', 'r']);
    assert("tenancy"@ =~= seq!['t', 'e', 'n', 'a', 'n', 'c', 'y']);
    assert("region"@ =~= seq!['r', 'e', 'g', 'i', 'o', 'n']);
    assert("fingerprint"@ =~= seq!['f', 'i', 'n', 'g', 'e', 'r', 'p', 'r', 'i', 'n', 't']);
    assert("key_file"@ =~= seq!['k', 'e', 'y', '_', 'f', 'i', 'l', 'e']);
    assert("user="@ =~= "user"@ + seq!['=']);
    assert("tenancy="@ =~= "tenancy"@ + seq!['=']);
    assert("region="@ =~= "region"@ + seq!['=']);
    assert("fingerprint="@ =~= "fingerprint"@ + seq!['=']);
    assert("key_file="@ =~= "key_file"@ + seq!['=']);
    assert("["@ =~= seq!['[']);
    assert("]\n"@ =~= seq![']', '\n']);
    assert("\n"@ =~= seq!['\n']);
}

/// Whether `key` can stand before the `=` of a line and be read back.
pub open spec fn is_key_word(key: Seq<char>) -> bool {
    &&& key.len() > 0
    &&& is_plain(key)
    &&& key[0] != '#'
    &&& key[0] != '['
    &&& forall|i: int| 0 <= i < key.len() ==> #[trigger] key[i] != '='
}

/// The five keys are words that are read back.
proof fn lemma_key_words()
    ensures
        is_key_word("user"@),
        is_key_word("tenancy"@),
        is_key_word("region"@),
        is_key_word("fingerprint"@),
        is_key_word("key_file"@),
{
    lemma_keys();
}

/// The five lines of a section give the five values.
proof fn lemma_section_fields(p: ProfileView)
    ensures
        set_field(
            set_field(
                set_field(
                    set_field(set_field(no_fields(), "user"@, p.user), "fingerprint"@, p.fingerprint),
                    "tenancy"@,
                    p.tenancy,
                ),
                "region"@,
                p.region,
            ),
            "key_file"@,
            p.key_file,
        ) == fields_of(p),
{
    lemma_keys();
}

/// The text of a pair and of what follows it, line by line.
pub open spec fn pair_then(key: Seq<char>, value: Seq<char>, rest: Seq<char>) -> Seq<char> {
    key + seq!['='] + value + seq!['\n'] + rest
}

/// A section as it is written, line by line.
proof fn lemma_section_shape(p: ProfileView)
    ensures
        rendered_section(p) == seq!['['] + p.name + seq![']'] + seq!['\n'] + pair_then(
            "user"@,
            p.user,
            pair_then(
                "fingerprint"@,
                p.fingerprint,
                pair_then(
                    "tenancy"@,
                    p.tenancy,
                    pair_then(
                        "region"@,
                        p.region,
                        pair_then("key_file"@, p.key_file, Seq::empty()),
                    ),
                ),
            ),
        ),
        rendered_section(p).len() > 0,
        rendered_section(p).last() == '\n',
{
    lemma_keys();
    let r5 = pair_then("key_file"@, p.key_file, Seq::empty());
    let r4 = pair_then("region"@, p.region, r5);
    let r3 = pair_then("tenancy"@, p.tenancy, r4);
    let r2 = pair_then("fingerprint"@, p.fingerprint, r3);
    let r1 = pair_then("user"@, p.user, r2);
    let tail5 = "key_file="@ + p.key_file + "\n"@;
    assert(tail5 =~= r5);
    let tail4 = "region="@ + p.region + "\n"@ + tail5;
    assert(tail4 =~= r4);
    let tail3 = "tenancy="@ + p.tenancy + "\n"@ + tail4;
    assert(tail3 =~= r3);
    let tail2 = "fingerprint="@ + p.fingerprint + "\n"@ + tail3;
    assert(tail2 =~= r2);
    let tail1 = "user="@ + p.user + "\n"@ + tail2;
    assert(tail1 =~= r1);
    let all = "["@ + p.name + "]\n"@ + tail1;
    assert(rendered_section(p) =~= all);
    assert(all =~= seq!['['] + p.name + seq![']'] + seq!['\n'] + r1);
    assert(tail5.last() == '\n');
    assert(all.last() == tail5.last());
}

/// Reading a line `key=value` and what follows it gives the key its value
/// and goes on.
pub proof fn lemma_scan_pair(
    state: ParseState,
    key: Seq<char>,
    value: Seq<char>,
    rest: Seq<char>,
    config_dir: Seq<char>,
    home: Option<Seq<char>>,
)
    requires
        is_key_word(key),
        is_plain(value),
    ensures
        scan(state, pair_then(key, value, rest), config_dir, home) == scan(
            ParseState { fields: set_field(state.fields, key, value), ..state },
            rest,
            config_dir,
            home,
        ),
{
    lemma_step_pair(state, key, value, config_dir, home);
    lemma_scan_line(state, key + seq!['='] + value, rest, config_dir, home);
}

/// Reading the section that was written for a profile closes the section
/// before it and leaves the profile's section open, with its five values.
pub proof fn lemma_scan_section(
    state: ParseState,
    p: ProfileView,
    config_dir: Seq<char>,
    home: Option<Seq<char>>,
)
    requires
        is_writable(p),
    ensures
        scan(state, rendered_section(p), config_dir, home) == (ParseState {
            done: closed(state, config_dir, home),
            section: Some(p.name),
            fields: fields_of(p),
        }),
        rendered_section(p).len() > 0,
        rendered_section(p).last() == '\n',
{
    lemma_section_shape(p);
    lemma_key_words();
    lemma_section_fields(p);
    let r5 = pair_then("key_file"@, p.key_file, Seq::empty());
    let r4 = pair_then("region"@, p.region, r5);
    let r3 = pair_then("tenancy"@, p.tenancy, r4);
    let r2 = pair_then("fingerprint"@, p.fingerprint, r3);
    let r1 = pair_then("user"@, p.user, r2);
    let s0 = ParseState {
        done: closed(state, config_dir, home),
        section: Some(p.name),
        fields: no_fields(),
    };
    let s1 = ParseState { fields: set_field(s0.fields, "user"@, p.user), ..s0 };
    let s2 = ParseState { fields: set_field(s1.fields, "fingerprint"@, p.fingerprint), ..s1 };
    let s3 = ParseState { fields: set_field(s2.fields, "tenancy"@, p.tenancy), ..s2 };
    let s4 = ParseState { fields: set_field(s3.fields, "region"@, p.region), ..s3 };
    let s5 = ParseState { fields: set_field(s4.fields, "key_file"@, p.key_file), ..s4 };
    lemma_step_header(state, p.name, config_dir, home);
    lemma_scan_line(state, seq!['['] + p.name + seq![']'], r1, config_dir, home);
    lemma_scan_pair(s0, "user"@, p.user, r2, config_dir, home);
    lemma_scan_pair(s1, "fingerprint"@, p.fingerprint, r3, config_dir, home);
    lemma_scan_pair(s2, "tenancy"@, p.tenancy, r4, config_dir, home);
    lemma_scan_pair(s3, "region"@, p.region, r5, config_dir, home);
    lemma_scan_pair(s4, "key_file"@, p.key_file, Seq::empty(), config_dir, home);
    assert(scan(s5, Seq::empty(), config_dir, home) == s5);
}

/// Reading the text that was written for a list of profiles leaves the last
/// profile's section open and has closed the sections before it.
pub proof fn lemma_scan_rendered(
    profiles: Seq<ProfileView>,
    config_dir: Seq<char>,
    home: Option<Seq<char>>,
)
    requires
        all_writable(profiles),
        profiles.len() > 0,
    ensures
        scan(initial_state(), rendered(profiles), config_dir, home) == (ParseState {
            done: resolved_profiles(profiles.drop_last(), config_dir, home),
            section: Some(profiles.last().name),
            fields: fields_of(profiles.last()),
        }),
        rendered(profiles).len() > 0,
        rendered(profiles).last() == '\n',
    decreases profiles.len(),
{
    let last = profiles.last();
    assert(is_writable(profiles[profiles.len() - 1]));
    if profiles.len() == 1 {
        lemma_scan_section(initial_state(), last, config_dir, home);
        assert(resolved_profiles(profiles.drop_last(), config_dir, home) =~= Seq::empty());
    } else {
        lemma_keys();
        let front = profiles.drop_last();
        assert forall|i: int| 0 <= i < front.len() implies is_writable(#[trigger] front[i]) by {
            assert(front[i] == profiles[i]);
        }
        lemma_scan_rendered(front, config_dir, home);
        let section = rendered_section(last);
        let empty = Seq::<char>::empty();
        assert(rendered(profiles) =~= rendered(front) + (empty + seq!['\n'] + section));
        let s = scan(initial_state(), rendered(front), config_dir, home);
        lemma_scan_concat(
            initial_state(),
            rendered(front),
            empty + seq!['\n'] + section,
            config_dir,
            home,
        );
        lemma_scan_line(s, empty, section, config_dir, home);
        assert(trim(empty) =~= empty);
        assert(is_skipped(trim(empty)));
        lemma_scan_section(s, last, config_dir, home);
        assert(built_profile(front.last().name, fields_of(front.last()), config_dir, home) == Some(
            resolved_profile(front.last(), config_dir, home),
        ));
        assert(closed(s, config_dir, home) =~= resolved_profiles(front, config_dir, home));
        assert(rendered(profiles).last() == section.last());
    }
}

/// Profiles that are written and read back come out as they were, but for
/// the path of the key file, which is resolved.
pub proof fn lemma_round_trip(
    profiles: Seq<ProfileView>,
    config_path: Seq<char>,
    home: Option<Seq<char>>,
)
    requires
        all_writable(profiles),
    ensures
        parsed_profiles(rendered(profiles), config_path, home) == resolved_profiles(
            profiles,
            parent_dir(config_path),
            home,
        ),
{
    let dir = parent_dir(config_path);
    if profiles.len() == 0 {
        assert(resolved_profiles(profiles, dir, home) =~= Seq::empty());
    } else {
        lemma_scan_rendered(profiles, dir, home);
        let s = scan(initial_state(), rendered(profiles), dir, home);
        assert(built_profile(profiles.last().name, fields_of(profiles.last()), dir, home) == Some(
            resolved_profile(profiles.last(), dir, home),
        ));
        assert(closed(s, dir, home) =~= resolved_profiles(profiles, dir, home));
    }
}

/// The first line of a text.
pub open spec fn first_line(text: Seq<char>) -> Seq<char> {
    text.subrange(0, index_of(text, '\n'))
}

/// Whether a text starts with the header of a section.
pub open spec fn starts_with_header(text: Seq<char>) -> bool {
    text.len() > 0 && is_header(trim(first_line(text)))
}

/// Whether no line of a text is the header of a section.
pub open spec fn has_no_header(text: Seq<char>) -> bool
    decreases text.len(),
{
    if text.len() == 0 {
        true
    } else {
        let end = index_of(text, '\n');
        !is_header(trim(text.subrange(0, end))) && (0 <= end < text.len() ==> has_no_header(
            text.subrange(end + 1, text.len() as int),
        ))
    }
}

/// `state` with `prefix` before its closed profiles.
pub open spec fn with_done(prefix: Seq<ProfileView>, state: ParseState) -> ParseState {
    ParseState { done: prefix + state.done, ..state }
}

/// The state in which the section `name` has just been opened.
pub open spec fn opened(name: Seq<char>) -> ParseState {
    ParseState { done: Seq::empty(), section: Some(name), fields: no_fields() }
}

/// Profiles that are closed already pass through a line unchanged.
pub proof fn lemma_step_prefix(
    prefix: Seq<ProfileView>,
    state: ParseState,
    line: Seq<char>,
    config_dir: Seq<char>,
    home: Option<Seq<char>>,
)
    ensures
        step(with_done(prefix, state), line, config_dir, home) == with_done(
            prefix,
            step(state, line, config_dir, home),
        ),
        closed(with_done(prefix, state), config_dir, home) == prefix + closed(
            state,
            config_dir,
            home,
        ),
{
    assert(closed(with_done(prefix, state), config_dir, home) =~= prefix + closed(
        state,
        config_dir,
        home,
    ));
}

/// Profiles that are closed already pass through a text unchanged.
pub proof fn lemma_scan_prefix(
    prefix: Seq<ProfileView>,
    state: ParseState,
    text: Seq<char>,
    config_dir: Seq<char>,
    home: Option<Seq<char>>,
)
    ensures
        scan(with_done(prefix, state), text, config_dir, home) == with_done(
            prefix,
            scan(state, text, config_dir, home),
        ),
    decreases text.len(),
{
    if text.len() > 0 {
        let end = index_of(text, '\n');
        let line = trim(text.subrange(0, end));
        lemma_step_prefix(prefix, state, line, config_dir, home);
        if 0 <= end < text.len() {
            lemma_scan_prefix(
                prefix,
                step(state, line, config_dir, home),
                text.subrange(end + 1, text.len() as int),
                config_dir,
                home,
            );
        }
    }
}

/// Lines that are no headers neither close a section nor open one.
pub proof fn lemma_scan_body(
    state: ParseState,
    body: Seq<char>,
    config_dir: Seq<char>,
    home: Option<Seq<char>>,
)
    requires
        has_no_header(body),
    ensures
        scan(state, body, config_dir, home).done == state.done,
        scan(state, body, config_dir, home).section == state.section,
    decreases body.len(),
{
    if body.len() > 0 {
        let end = index_of(body, '\n');
        let line = trim(body.subrange(0, end));
        if 0 <= end < body.len() {
            lemma_scan_body(
                step(state, line, config_dir, home),
                body.subrange(end + 1, body.len() as int),
                config_dir,
                home,
            );
        }
    }
}

/// Sections are read independently: the profiles of a text whose second
/// part starts with a header are those of the first part, then those of the
/// second. What the first part holds, complete or not, changes nothing in
/// what the second gives.
pub proof fn lemma_sections_independent(
    a: Seq<char>,
    b: Seq<char>,
    config_path: Seq<char>,
    home: Option<Seq<char>>,
)
    requires
        ends_lines(a),
        starts_with_header(b),
    ensures
        parsed_profiles(a + b, config_path, home) == parsed_profiles(a, config_path, home)
            + parsed_profiles(b, config_path, home),
{
    let dir = parent_dir(config_path);
    let sa = scan(initial_state(), a, dir, home);
    lemma_scan_concat(initial_state(), a, b, dir, home);
    let end = index_of(b, '\n');
    let line = trim(b.subrange(0, end));
    let prefix = closed(sa, dir, home);
    let from_a = step(sa, line, dir, home);
    let from_start = step(initial_state(), line, dir, home);
    assert(prefix + from_start.done =~= prefix);
    assert(from_a == with_done(prefix, from_start));
    if 0 <= end < b.len() {
        let rest = b.subrange(end + 1, b.len() as int);
        lemma_scan_prefix(prefix, from_start, rest, dir, home);
        lemma_step_prefix(prefix, scan(from_start, rest, dir, home), line, dir, home);
    } else {
        lemma_step_prefix(prefix, from_start, line, dir, home);
    }
}

/// One section gives exactly one profile where its lines give all five
/// required keys, and none where one is missing.
pub proof fn lemma_one_section(
    header: Seq<char>,
    body: Seq<char>,
    config_path: Seq<char>,
    home: Option<Seq<char>>,
)
    requires
        is_one_line(header),
        is_header(trim(header)),
        has_no_header(body),
    ensures
        ({
            let dir = parent_dir(config_path);
            let line = trim(header);
            let name = trim(line.subrange(1, line.len() - 1));
            let fields = scan(opened(name), body, dir, home).fields;
            parsed_profiles(header + seq!['\n'] + body, config_path, home) == match built_profile(
                name,
                fields,
                dir,
                home,
            ) {
                Some(profile) => seq![profile],
                None => Seq::empty(),
            }
        }),
{
    let dir = parent_dir(config_path);
    let line = trim(header);
    let name = trim(line.subrange(1, line.len() - 1));
    lemma_scan_line(initial_state(), header, body, dir, home);
    assert(step(initial_state(), line, dir, home) == opened(name));
    lemma_scan_body(opened(name), body, dir, home);
    let end_state = scan(opened(name), body, dir, home);
    match built_profile(name, end_state.fields, dir, home) {
        Some(profile) => {
            assert(closed(end_state, dir, home) =~= seq![profile]);
        },
        None => {
            assert(closed(end_state, dir, home) =~= Seq::empty());
        },
    }
}

} // verus!
