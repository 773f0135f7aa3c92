//! The credential file: sections of `key=value` lines, one profile each.
//!
//! A section that lacks one of the five required keys gives no profile and no
//! error: it is dropped, and reading goes on with the next section.

use crate::models::profile::{views, OciProfile, ProfileView};
use crate::oci::paths::{
    expand_home, extend_range, join, join_chars, opt_view, parent_dir, parent_dir_chars, resolve,
    resolve_chars,
};
use crate::text::{
    chars_of, index_of, lemma_index_of_unique, range_is, string_of, string_of_range, trim,
    trim_range,
};
use vstd::prelude::*;
use vstd::string::*;

verus! {

/// The values that a section has given so far for the five required keys.
pub struct SectionFields {
    pub user: Option<String>,
    pub tenancy: Option<String>,
    pub region: Option<String>,
    pub fingerprint: Option<String>,
    pub key_file: Option<String>,
}

/// What `SectionFields` holds, as sequences of characters.
pub struct FieldsView {
    pub user: Option<Seq<char>>,
    pub tenancy: Option<Seq<char>>,
    pub region: Option<Seq<char>>,
    pub fingerprint: Option<Seq<char>>,
    pub key_file: Option<Seq<char>>,
}

/// The view of an optional owned string.
pub open spec fn string_opt_view(s: Option<String>) -> Option<Seq<char>> {
    match s {
        Some(t) => Some(t@),
        None => None,
    }
}

impl View for SectionFields {
    type V = FieldsView;

    open spec fn view(&self) -> FieldsView {
        FieldsView {
            user: string_opt_view(self.user),
            tenancy: string_opt_view(self.tenancy),
            region: string_opt_view(self.region),
            fingerprint: string_opt_view(self.fingerprint),
            key_file: string_opt_view(self.key_file),
        }
    }
}

/// A section in which no key has been given.
pub open spec fn no_fields() -> FieldsView {
    FieldsView { user: None, tenancy: None, region: None, fingerprint: None, key_file: None }
}

/// `fields` after a line `key=value`: a required key takes the value, also in
/// place of an earlier one; any other key changes nothing.
pub open spec fn set_field(fields: FieldsView, key: Seq<char>, value: Seq<char>) -> FieldsView {
    if key == "user"@ {
        FieldsView { user: Some(value), ..fields }
    } else if key == "tenancy"@ {
        FieldsView { tenancy: Some(value), ..fields }
    } else if key == "region"@ {
        FieldsView { region: Some(value), ..fields }
    } else if key == "fingerprint"@ {
        FieldsView { fingerprint: Some(value), ..fields }
    } else if key == "key_file"@ {
        FieldsView { key_file: Some(value), ..fields }
    } else {
        fields
    }
}

/// Whether all five required keys have a value.
pub open spec fn is_complete(fields: FieldsView) -> bool {
    fields.user is Some && fields.tenancy is Some && fields.region is Some
        && fields.fingerprint is Some && fields.key_file is Some
}

/// The profile of a section named `name`: one only where the section is
/// complete, with the key file's path resolved.
pub open spec fn built_profile(
    name: Seq<char>,
    fields: FieldsView,
    config_dir: Seq<char>,
    home: Option<Seq<char>>,
) -> Option<ProfileView> {
    if is_complete(fields) {
        Some(
            ProfileView {
                name,
                user: fields.user->0,
                tenancy: fields.tenancy->0,
                region: fields.region->0,
                fingerprint: fields.fingerprint->0,
                key_file: resolve(fields.key_file->0, config_dir, home),
            },
        )
    } else {
        None
    }
}

/// Where reading stands: the profiles of the sections that are closed, the
/// name of the open section if there is one, and its values so far.
pub struct ParseState {
    pub done: Seq<ProfileView>,
    pub section: Option<Seq<char>>,
    pub fields: FieldsView,
}

/// The state before the first line.
pub open spec fn initial_state() -> ParseState {
    ParseState { done: Seq::empty(), section: None, fields: no_fields() }
}

/// The profiles once the open section is closed: its profile is added where
/// the section is complete.
pub open spec fn closed(state: ParseState, config_dir: Seq<char>, home: Option<Seq<char>>) -> Seq<
    ProfileView,
> {
    match state.section {
        Some(name) => match built_profile(name, state.fields, config_dir, home) {
            Some(profile) => state.done.push(profile),
            None => state.done,
        },
        None => state.done,
    }
}

/// Whether a trimmed line opens a section.
pub open spec fn is_header(line: Seq<char>) -> bool {
    line.len() > 0 && line[0] == '[' && line.last() == ']'
}

/// Whether a trimmed line is skipped: an empty line or a comment.
pub open spec fn is_skipped(line: Seq<char>) -> bool {
    line.len() == 0 || line[0] == '#'
}

/// The state after one trimmed line. An empty line and a comment change
/// nothing; a header closes the open section and opens the next; a line with
/// `=` gives the key before the first `=` the value after it, both trimmed;
/// any other line changes nothing.
pub open spec fn step(
    state: ParseState,
    line: Seq<char>,
    config_dir: Seq<char>,
    home: Option<Seq<char>>,
) -> ParseState {
    if is_skipped(line) {
        state
    } else if is_header(line) {
        ParseState {
            done: closed(state, config_dir, home),
            section: Some(trim(line.subrange(1, line.len() - 1))),
            fields: no_fields(),
        }
    } else {
        let eq = index_of(line, '=');
        if eq < line.len() {
            ParseState {
                fields: set_field(
                    state.fields,
                    trim(line.subrange(0, eq)),
                    trim(line.subrange(eq + 1, line.len() as int)),
                ),
                ..state
            }
        } else {
            state
        }
    }
}

/// The state after all lines of `text`, from `state`. A line ends at a line
/// feed or at the end of the text; a carriage return before the line feed
/// goes with the white space that trimming removes.
pub open spec fn scan(
    state: ParseState,
    text: Seq<char>,
    config_dir: Seq<char>,
    home: Option<Seq<char>>,
) -> ParseState
    decreases text.len(),
{
    if text.len() == 0 {
        state
    } else {
        let end = index_of(text, '\n');
        let next = step(state, trim(text.subrange(0, end)), config_dir, home);
        if 0 <= end < text.len() {
            scan(next, text.subrange(end + 1, text.len() as int), config_dir, home)
        } else {
            next
        }
    }
}

/// The profiles that a configuration file holds: one for each complete
/// section, in the order of the sections. `config_path` is the file's own
/// path; a relative key file is looked for beside it.
pub open spec fn parsed_profiles(
    content: Seq<char>,
    config_path: Seq<char>,
    home: Option<Seq<char>>,
) -> Seq<ProfileView> {
    let dir = parent_dir(config_path);
    closed(scan(initial_state(), content, dir, home), dir, home)
}

/// One section as it is written: the name in brackets, then the five keys in
/// the order user, fingerprint, tenancy, region, key_file, one line each.
pub open spec fn rendered_section(p: ProfileView) -> Seq<char> {
    "["@ + p.name + "]\n"@ + "user="@ + p.user + "\n"@ + "fingerprint="@ + p.fingerprint + "\n"@
        + "tenancy="@ + p.tenancy + "\n"@ + "region="@ + p.region + "\n"@ + "key_file="@
        + p.key_file + "\n"@
}

/// The text of a configuration file that holds `profiles`, in their order,
/// with an empty line between two sections.
pub open spec fn rendered(profiles: Seq<ProfileView>) -> Seq<char>
    decreases profiles.len(),
{
    if profiles.len() == 0 {
        Seq::empty()
    } else if profiles.len() == 1 {
        rendered_section(profiles[0])
    } else {
        rendered(profiles.drop_last()) + "\n"@ + rendered_section(profiles.last())
    }
}

/// The path of the configuration file under a home directory:
/// `<home>/.oci/config`, with `~` for a home directory that is not known.
pub open spec fn default_path(home: Option<Seq<char>>) -> Seq<char> {
    let base = match home {
        Some(h) => h,
        None => "~"@,
    };
    join(join(base, ".oci"@), "config"@)
}

impl SectionFields {
    /// A section in which no key has been given.
    pub fn new() -> (fields: SectionFields)
        ensures
            fields@ == no_fields(),
    {
        SectionFields { user: None, tenancy: None, region: None, fingerprint: None, key_file: None }
    }

    /// Records the line `key=value`.
    pub fn insert(self, key: &str, value: String) -> (fields: SectionFields)
        ensures
            fields@ == set_field(self@, key@, value@),
    {
        let k = chars_of(key);
        proof {
            assert(k@.subrange(0, k@.len() as int) =~= k@);
        }
        let n = k.len();
        if range_is(&k, 0, n, "user") {
            SectionFields { user: Some(value), ..self }
        } else if range_is(&k, 0, n, "tenancy") {
            SectionFields { tenancy: Some(value), ..self }
        } else if range_is(&k, 0, n, "region") {
            SectionFields { region: Some(value), ..self }
        } else if range_is(&k, 0, n, "fingerprint") {
            SectionFields { fingerprint: Some(value), ..self }
        } else if range_is(&k, 0, n, "key_file") {
            SectionFields { key_file: Some(value), ..self }
        } else {
            self
        }
    }
}

/// Where reading stands, in executable form.
pub struct Parser {
    pub profiles: Vec<OciProfile>,
    pub section: Option<String>,
    pub fields: SectionFields,
}

impl View for Parser {
    type V = ParseState;

    open spec fn view(&self) -> ParseState {
        ParseState {
            done: views(self.profiles@),
            section: string_opt_view(self.section),
            fields: self.fields@,
        }
    }
}

/// The directory of the system's user, where the system knows one.
///
/// Calls `dirs::home_dir`. Nothing is claimed of the result: it depends on the
/// environment of the process.
#[verifier::external_body]
fn home_directory() -> (home: Option<String>) {
    match dirs::home_dir() {
        Some(path) => Some(path.to_string_lossy().to_string()),
        None => None,
    }
}

/// The path of the configuration file where none is given: `<home>/.oci/config`.
pub fn default_config_path() -> (path: String)
    ensures
        exists|home: Option<Seq<char>>| path@ == default_path(home),
{
    let home = home_directory();
    match home {
        Some(h) => default_config_path_in(Some(h.as_str())),
        None => default_config_path_in(None),
    }
}

/// The path of the configuration file under `home`.
pub fn default_config_path_in(home: Option<&str>) -> (path: String)
    ensures
        path@ == default_path(opt_view(home)),
{
    let base = match home {
        Some(h) => chars_of(h),
        None => chars_of("~"),
    };
    let oci = join_chars(&base, &chars_of(".oci"));
    let full = join_chars(&oci, &chars_of("config"));
    string_of(&full)
}

/// `path` with a leading `~` replaced by `home`, where there is one.
pub fn expand_tilde(path: &str, home: Option<&str>) -> (out: String)
    ensures
        out@ == expand_home(path@, opt_view(home)),
{
    let p = chars_of(path);
    if p.len() > 0 && p[0] == '~' {
        if let Some(h) = home {
            let mut out = chars_of(h);
            extend_range(&mut out, &p, 1, p.len());
            proof {
                assert(p@.subrange(1, p@.len() as int) =~= p@.drop_first());
            }
            return string_of(&out);
        }
    }
    string_of(&p)
}

/// Where the key file `key_file` of a configuration file in `config_dir` lies.
pub fn resolve_key_file_path(key_file: &str, config_dir: &str, home: Option<&str>) -> (out: String)
    ensures
        out@ == resolve(key_file@, config_dir@, opt_view(home)),
{
    let h = match home {
        Some(t) => Some(chars_of(t)),
        None => None,
    };
    let out = resolve_chars(&chars_of(key_file), &chars_of(config_dir), &h);
    string_of(&out)
}

/// The profile of the section `name` with the values `fields`, where the
/// section is complete.
pub fn build_profile(name: &str, fields: &SectionFields, config_dir: &str, home: Option<&str>) -> (out:
    Option<OciProfile>)
    ensures
        match out {
            Some(p) => built_profile(name@, fields@, config_dir@, opt_view(home)) == Some(p@),
            None => built_profile(name@, fields@, config_dir@, opt_view(home)) is None,
        },
{
    match (&fields.user, &fields.tenancy, &fields.region, &fields.fingerprint, &fields.key_file) {
        (Some(user), Some(tenancy), Some(region), Some(fingerprint), Some(key_file)) => Some(
            OciProfile {
                name: String::from_str(name),
                user: user.clone(),
                tenancy: tenancy.clone(),
                region: region.clone(),
                fingerprint: fingerprint.clone(),
                key_file: resolve_key_file_path(key_file.as_str(), config_dir, home),
            },
        ),
        _ => None,
    }
}

impl Parser {
    /// The state before the first line.
    pub fn new() -> (parser: Parser)
        ensures
            parser@ == initial_state(),
    {
        let parser = Parser { profiles: Vec::new(), section: None, fields: SectionFields::new() };
        proof {
            assert(views(parser.profiles@) =~= Seq::empty());
        }
        parser
    }

    /// Closes the open section and hands out the profiles.
    pub fn finish(self, config_dir: &str, home: Option<&str>) -> (profiles: Vec<OciProfile>)
        ensures
            views(profiles@) == closed(self@, config_dir@, opt_view(home)),
    {
        let mut profiles = self.profiles;
        if let Some(name) = self.section {
            if let Some(profile) = build_profile(name.as_str(), &self.fields, config_dir, home) {
                proof {
                    assert(views(profiles@.push(profile)) =~= views(profiles@).push(profile@));
                }
                profiles.push(profile);
            }
        }
        profiles
    }

    /// Reads the line `text[from..to]`.
    pub fn read_line(
        self,
        text: &Vec<char>,
        from: usize,
        to: usize,
        config_dir: &str,
        home: Option<&str>,
    ) -> (next: Parser)
        requires
            from <= to <= text@.len(),
        ensures
            next@ == step(
                self@,
                trim(text@.subrange(from as int, to as int)),
                config_dir@,
                opt_view(home),
            ),
    {
        let (a, b) = trim_range(text, from, to);
        let ghost line = text@.subrange(a as int, b as int);
        if a == b || text[a] == '#' {
            return self;
        }
        if text[a] == '[' && text[b - 1] == ']' {
            let (na, nb) = trim_range(text, a + 1, b - 1);
            proof {
                assert(line.subrange(1, line.len() - 1) =~= text@.subrange(a + 1, b - 1));
            }
            let name = string_of_range(text, na, nb);
            let profiles = Parser {
                profiles: self.profiles,
                section: self.section,
                fields: self.fields,
            }.finish(config_dir, home);
            return Parser { profiles, section: Some(name), fields: SectionFields::new() };
        }
        let mut eq: usize = a;
        while eq < b && text[eq] != '='
            invariant
                a <= eq <= b <= text@.len(),
                forall|i: int| a <= i < eq ==> text@[i] != '=',
            decreases b - eq,
        {
            eq += 1;
        }
        proof {
            assert forall|i: int| 0 <= i < eq - a implies #[trigger] line[i] != '=' by {
                assert(line[i] == text@[a + i]);
            }
            lemma_index_of_unique(line, '=', eq - a);
        }
        if eq == b {
            return self;
        }
        let (ka, kb) = trim_range(text, a, eq);
        let (va, vb) = trim_range(text, eq + 1, b);
        proof {
            assert(line.subrange(0, eq - a) =~= text@.subrange(a as int, eq as int));
            assert(line.subrange(eq - a + 1, line.len() as int) =~= text@.subrange(
                eq + 1,
                b as int,
            ));
        }
        let key = string_of_range(text, ka, kb);
        let value = string_of_range(text, va, vb);
        Parser {
            profiles: self.profiles,
            section: self.section,
            fields: self.fields.insert(key.as_str(), value),
        }
    }
}

/// The profiles of the configuration file at `config_path` whose text is
/// `content`, with `home` as the user's home directory.
pub fn parse_config_in(content: &str, config_path: &str, home: Option<&str>) -> (profiles: Vec<
    OciProfile,
>)
    ensures
        views(profiles@) == parsed_profiles(content@, config_path@, opt_view(home)),
{
    let text = chars_of(content);
    let dir_chars = parent_dir_chars(&chars_of(config_path));
    let dir_string = string_of(&dir_chars);
    let dir = dir_string.as_str();
    let n = text.len();
    let mut parser = Parser::new();
    let mut pos: usize = 0;
    proof {
        assert(text@.subrange(0, n as int) =~= text@);
    }
    while pos < n
        invariant
            pos <= n,
            n == text@.len(),
            scan(parser@, text@.subrange(pos as int, n as int), dir@, opt_view(home)) == scan(
                initial_state(),
                text@,
                dir@,
                opt_view(home),
            ),
        decreases n - pos,
    {
        let mut end: usize = pos;
        while end < n && text[end] != '\n'
            invariant
                pos <= end <= n,
                n == text@.len(),
                forall|i: int| pos <= i < end ==> text@[i] != '\n',
            decreases n - end,
        {
            end += 1;
        }
        let ghost rest = text@.subrange(pos as int, n as int);
        proof {
            assert forall|i: int| 0 <= i < end - pos implies #[trigger] rest[i] != '\n' by {
                assert(rest[i] == text@[pos + i]);
            }
            lemma_index_of_unique(rest, '\n', end - pos);
            assert(rest.subrange(0, end - pos) =~= text@.subrange(pos as int, end as int));
            if end < n {
                assert(rest.subrange(end - pos + 1, rest.len() as int) =~= text@.subrange(
                    end + 1,
                    n as int,
                ));
            }
        }
        parser = parser.read_line(&text, pos, end, dir, home);
        if end < n {
            pos = end + 1;
        } else {
            pos = n;
            proof {
                assert(text@.subrange(n as int, n as int).len() == 0);
            }
        }
    }
    parser.finish(dir, home)
}

/// The profiles of the configuration file at `config_path` whose text is
/// `content`. The home directory is the one that the system gives.
pub fn parse_config(content: &str, config_path: &str) -> (profiles: Vec<OciProfile>)
    ensures
        exists|home: Option<Seq<char>>|
            views(profiles@) == parsed_profiles(content@, config_path@, home),
{
    let home = home_directory();
    match home {
        Some(h) => {
            let profiles = parse_config_in(content, config_path, Some(h.as_str()));
            proof {
                assert(views(profiles@) == parsed_profiles(content@, config_path@, Some(h@)));
            }
            profiles
        },
        None => {
            let profiles = parse_config_in(content, config_path, None);
            proof {
                assert(views(profiles@) == parsed_profiles(content@, config_path@, None));
            }
            profiles
        },
    }
}

/// Appends the section of `profile` to `content`.
fn append_section(content: &mut String, profile: &OciProfile)
    ensures
        final(content)@ == old(content)@ + rendered_section(profile@),
{
    let ghost head = content@;
    content.append("[");
    content.append(profile.name.as_str());
    content.append("]\n");
    content.append("user=");
    content.append(profile.user.as_str());
    content.append("\n");
    content.append("fingerprint=");
    content.append(profile.fingerprint.as_str());
    content.append("\n");
    let ghost middle = content@;
    proof {
        assert(middle =~= head + ("["@ + profile@.name + "]\n"@ + "user="@ + profile@.user + "\n"@
            + "fingerprint="@ + profile@.fingerprint + "\n"@));
    }
    content.append("tenancy=");
    content.append(profile.tenancy.as_str());
    content.append("\n");
    content.append("region=");
    content.append(profile.region.as_str());
    content.append("\n");
    content.append("key_file=");
    content.append(profile.key_file.as_str());
    content.append("\n");
    proof {
        assert(content@ =~= head + rendered_section(profile@));
    }
}

/// The text of a configuration file that holds `profiles`.
pub fn write_config(profiles: &[OciProfile]) -> (content: String)
    ensures
        content@ == rendered(views(profiles@)),
{
    let mut content = String::new();
    let mut i: usize = 0;
    while i < profiles.len()
        invariant
            i <= profiles@.len(),
            content@ == rendered(views(profiles@).subrange(0, i as int)),
        decreases profiles@.len() - i,
    {
        let ghost before = views(profiles@).subrange(0, i as int);
        let ghost after = views(profiles@).subrange(0, i + 1);
        proof {
            assert(after.drop_last() =~= before);
            assert(after.last() == profiles@[i as int]@);
        }
        if i > 0 {
            content.append("\n");
        }
        let ghost head = content@;
        append_section(&mut content, &profiles[i]);
        proof {
            if i == 0 {
                assert(head =~= Seq::empty());
                assert(content@ =~= rendered_section(profiles@[0]@));
            }
        }
        i += 1;
    }
    proof {
        assert(views(profiles@).subrange(0, profiles@.len() as int) =~= views(profiles@));
    }
    content
}

} // verus!
