//! Skills: instructions an agent can follow, each a markdown file with
//! YAML front matter, found in skill directories.
//!
//! Reading directories and files and parsing YAML are the caller's
//! part; the library splits a file into its front matter and markdown,
//! keeps the skills by name, and picks and presents them.
use crate::error::HarnessError;
use crate::models::base::opt_view;
use crate::strmap::StrMap;
use crate::text::{chars_of, concat2, concat3, concat4, find, find_chars, has_prefix, join, join_strings, owned, str_eq, string_of_range, trim, trim_chars, views};
use vstd::prelude::*;

verus! {

/// What a skill's front matter says.
#[derive(Debug)]
pub struct SkillMetadata {
    /// Its name.
    pub name: String,
    /// What it is for.
    pub description: String,
    /// Its version.
    pub version: Option<String>,
    /// Its author.
    pub author: Option<String>,
    /// Its license.
    pub license: Option<String>,
    /// The tool groups it needs.
    pub required_tools: Option<Vec<String>>,
    /// Its tags.
    pub tags: Option<Vec<String>>,
    /// Whether it is on (true when not said).
    pub enabled: bool,
}

/// A skill.
#[derive(Debug)]
pub struct Skill {
    /// Its metadata.
    pub metadata: SkillMetadata,
    /// Its markdown.
    pub content: String,
    /// The file it was read from.
    pub path: String,
    /// Its directory.
    pub container_path: Option<String>,
}

/// The abstract value of a skill's metadata.
pub struct SkillMetadataModel {
    /// Name.
    pub name: Seq<char>,
    /// Description.
    pub description: Seq<char>,
    /// Version.
    pub version: Option<Seq<char>>,
    /// Author.
    pub author: Option<Seq<char>>,
    /// License.
    pub license: Option<Seq<char>>,
    /// Tool groups needed.
    pub required_tools: Option<Seq<Seq<char>>>,
    /// Tags.
    pub tags: Option<Seq<Seq<char>>>,
    /// Whether on.
    pub enabled: bool,
}

/// The views of an optional list of strings.
pub open spec fn opt_views(o: Option<Vec<String>>) -> Option<Seq<Seq<char>>> {
    match o {
        Some(v) => Some(views(v@)),
        None => None,
    }
}

impl View for SkillMetadata {
    type V = SkillMetadataModel;

    open spec fn view(&self) -> SkillMetadataModel {
        SkillMetadataModel {
            name: self.name@,
            description: self.description@,
            version: opt_view(self.version),
            author: opt_view(self.author),
            license: opt_view(self.license),
            required_tools: opt_views(self.required_tools),
            tags: opt_views(self.tags),
            enabled: self.enabled,
        }
    }
}

/// The abstract value of a skill.
pub struct SkillModel {
    /// Metadata.
    pub metadata: SkillMetadataModel,
    /// Markdown.
    pub content: Seq<char>,
    /// File.
    pub path: Seq<char>,
    /// Directory.
    pub container_path: Option<Seq<char>>,
}

impl View for Skill {
    type V = SkillModel;

    open spec fn view(&self) -> SkillModel {
        SkillModel {
            metadata: self.metadata@,
            content: self.content@,
            path: self.path@,
            container_path: opt_view(self.container_path),
        }
    }
}

impl Clone for SkillMetadata {
    fn clone(&self) -> (r: Self)
        ensures
            r@ == self@,
    {
        SkillMetadata {
            name: self.name.clone(),
            description: self.description.clone(),
            version: crate::models::base::clone_opt(&self.version),
            author: crate::models::base::clone_opt(&self.author),
            license: crate::models::base::clone_opt(&self.license),
            required_tools: match &self.required_tools {
                Some(v) => Some(crate::text::clone_strings(v)),
                None => None,
            },
            tags: match &self.tags {
                Some(v) => Some(crate::text::clone_strings(v)),
                None => None,
            },
            enabled: self.enabled,
        }
    }
}

impl Clone for Skill {
    fn clone(&self) -> (r: Self)
        ensures
            r@ == self@,
    {
        Skill {
            metadata: self.metadata.clone(),
            content: self.content.clone(),
            path: self.path.clone(),
            container_path: crate::models::base::clone_opt(&self.container_path),
        }
    }
}

/// How a skill file begins.
#[derive(Debug)]
pub enum FrontMatter {
    /// No front matter: a skill named `unknown`, and the whole file.
    Absent {
        /// The default metadata.
        metadata: SkillMetadata,
        /// The file.
        markdown: String,
    },
    /// Front matter to parse as YAML, and the markdown after it.
    Yaml {
        /// The front matter, trimmed.
        frontmatter: String,
        /// The markdown.
        markdown: String,
    },
}

/// How a file splits: `None` without a leading `---`; else the text
/// between it and the next `---`, trimmed, and what follows that, when
/// there is a next `---`.
pub open spec fn split_front(content: Seq<char>) -> Option<Option<(Seq<char>, Seq<char>)>> {
    if !has_prefix(content, "---"@) {
        None
    } else {
        let rest = content.skip(3);
        match find(rest, "---"@) {
            Some(i) => Some(Some((trim(rest.take(i)), rest.skip(i + 3)))),
            None => Some(None),
        }
    }
}

/// What `Path::file_name` gives of a path, as text.
pub uninterp spec fn path_file_name(path: Seq<char>) -> Option<Seq<char>>;

/// `std::path::Path::file_name`, as text: the path's last component,
/// when it is a normal one.  The contract names the result.
#[verifier::external_body]
fn file_name_of(path: &str) -> (r: Option<String>)
    ensures
        opt_view(r) == path_file_name(path@),
{
    match std::path::Path::new(path).file_name() {
        Some(n) => match n.to_str() {
            Some(s) => Some(s.to_string()),
            None => None,
        },
        None => None,
    }
}

/// The views of a list of skills.
pub open spec fn skill_views(v: Seq<Skill>) -> Seq<SkillModel> {
    v.map_values(|s: Skill| s@)
}

/// The skills kept after recording `loaded` into `kept`: each under its
/// name, in order, a later one replacing an earlier of the same name.
pub open spec fn recorded(kept: Map<Seq<char>, SkillModel>, loaded: Seq<SkillModel>) -> Map<
    Seq<char>,
    SkillModel,
>
    decreases loaded.len(),
{
    if loaded.len() == 0 {
        kept
    } else {
        recorded(kept, loaded.drop_last()).insert(loaded.last().metadata.name, loaded.last())
    }
}

/// The loader of skills, keeping them by name.
#[derive(Debug)]
pub struct SkillLoader {
    skills_dir: String,
    custom_dir: Option<String>,
    skills: StrMap<Skill>,
}

/// Whether a skill fits the tool groups: it needs none of them, or
/// needs one of them.
pub open spec fn fits_tools(required: Option<Seq<Seq<char>>>, groups: Seq<Seq<char>>) -> bool {
    match required {
        Some(r) => exists|i: int| 0 <= i < r.len() && groups.contains(#[trigger] r[i]),
        None => true,
    }
}

/// A skill's line in a prompt.
pub open spec fn skill_line(name: Seq<char>, container: Seq<char>, description: Seq<char>) -> Seq<char> {
    "- **"@ + name + "** ("@ + container + "): "@ + description
}

impl SkillLoader {
    /// The public skills directory.
    pub closed spec fn public_dir(&self) -> Seq<char> {
        self.skills_dir@
    }

    /// The custom skills directory.
    pub closed spec fn custom(&self) -> Option<Seq<char>> {
        opt_view(self.custom_dir)
    }

    /// The names of the skills kept, in the order they were first kept.
    pub closed spec fn names(&self) -> Seq<Seq<char>> {
        self.skills.key_order()
    }

    /// The skills kept, by name.
    pub closed spec fn skill_map(&self) -> Map<Seq<char>, SkillModel> {
        self.skills@
    }

    /// A loader of the skills under `skills_dir`, with none kept yet.
    pub fn new(skills_dir: &str) -> (l: Self)
        ensures
            l.public_dir() == skills_dir@,
            l.custom() is None,
            l.names().len() == 0,
    {
        SkillLoader { skills_dir: owned(skills_dir), custom_dir: None, skills: StrMap::new() }
    }

    /// With a custom skills directory too.
    pub fn with_custom_dir(self, custom_dir: &str) -> (l: Self)
        ensures
            l.public_dir() == self.public_dir(),
            l.custom() == Some(custom_dir@),
            l.names() == self.names(),
    {
        SkillLoader { custom_dir: Some(owned(custom_dir)), ..self }
    }

    /// The public skills directory.
    pub fn skills_dir(&self) -> (r: &str)
        ensures
            r@ == self.public_dir(),
    {
        self.skills_dir.as_str()
    }

    /// The custom skills directory.
    pub fn custom_dir(&self) -> (r: Option<&str>)
        ensures
            match r {
                Some(d) => self.custom() == Some(d@),
                None => self.custom() is None,
            },
    {
        match &self.custom_dir {
            Some(d) => Some(d.as_str()),
            None => None,
        }
    }

    /// Splits a skill file into its front matter and markdown.  Without
    /// a leading `---` the skill is named `unknown`, has no description,
    /// is enabled, and is the whole file.  With one but without a
    /// closing `---`, it fails with `Invalid frontmatter format`.
    pub fn parse_frontmatter(&self, content: &str) -> (r: Result<FrontMatter, HarnessError>)
        ensures
            match split_front(content@) {
                None => r matches Ok(FrontMatter::Absent { metadata, markdown }) && markdown@
                    == content@ && metadata.name@ == "unknown"@ && metadata.description@.len() == 0
                    && metadata.enabled && metadata.version is None && metadata.author is None
                    && metadata.license is None && metadata.required_tools is None
                    && metadata.tags is None,
                Some(None) => r matches Err(e) && e matches HarnessError::Other(m) && m@
                    == "Invalid frontmatter format"@,
                Some(Some((f, m))) => r matches Ok(FrontMatter::Yaml { frontmatter, markdown })
                    && frontmatter@ == f && markdown@ == m,
            },
    {
        proof {
            reveal_strlit("---");
        }
        let cs = chars_of(content);
        let dashes = chars_of("---");
        if !crate::text::starts_with(&cs, &dashes) {
            return Ok(
                FrontMatter::Absent {
                    metadata: SkillMetadata {
                        name: owned("unknown"),
                        description: String::new(),
                        version: None,
                        author: None,
                        license: None,
                        required_tools: None,
                        tags: None,
                        enabled: true,
                    },
                    markdown: owned(content),
                },
            );
        }
        let rest_s = string_of_range(&cs, 3, cs.len());
        let rest = chars_of(rest_s.as_str());
        assert(rest@ == content@.skip(3));
        match find_chars(&rest, &dashes) {
            None => Err(HarnessError::Other(owned("Invalid frontmatter format"))),
            Some(i) => {
                proof {
                    crate::text::lemma_find_from(rest@, "---"@, 0);
                }
                let n = rest.len();
                assert(i + 3 <= rest@.len());
                let head = string_of_range(&rest, 0, i);
                let hc = chars_of(head.as_str());
                let front = trim_chars(&hc);
                let markdown = string_of_range(&rest, i + 3, n);
                assert(head@ =~= rest@.take(i as int));
                assert(markdown@ =~= rest@.skip(i + 3));
                Ok(
                    FrontMatter::Yaml {
                        frontmatter: crate::text::string_of(&front),
                        markdown,
                    },
                )
            },
        }
    }

    /// The error of front matter that is not valid metadata.
    pub fn metadata_error(&self, detail: &str) -> (e: HarnessError)
        ensures
            e matches HarnessError::Other(m) && m@ == "Failed to parse skill metadata: "@ + detail@,
    {
        HarnessError::Other(concat2("Failed to parse skill metadata: ", detail))
    }

    /// Which file of a skill directory holds the skill: `SKILL.md`, else
    /// `README.md`, else none.
    pub fn skill_file(has_skill_md: bool, has_readme: bool) -> (r: Option<&'static str>)
        ensures
            has_skill_md ==> (r matches Some(n) && n@ == "SKILL.md"@),
            !has_skill_md && has_readme ==> (r matches Some(n) && n@ == "README.md"@),
            !has_skill_md && !has_readme ==> r is None,
    {
        if has_skill_md {
            Some("SKILL.md")
        } else if has_readme {
            Some("README.md")
        } else {
            None
        }
    }

    /// Keeps the skills loaded, each under its name, a later one
    /// replacing an earlier of the same name.
    pub fn record(&mut self, loaded: &Vec<Skill>)
        ensures
            final(self).skill_map() == recorded(old(self).skill_map(), skill_views(loaded@)),
            final(self).public_dir() == old(self).public_dir(),
            final(self).custom() == old(self).custom(),
    {
        let ghost vs = skill_views(loaded@);
        let mut i: usize = 0;
        while i < loaded.len()
            invariant
                i <= loaded@.len(),
                vs == skill_views(loaded@),
                self.skills_dir@ == old(self).skills_dir@,
                opt_view(self.custom_dir) == opt_view(old(self).custom_dir),
                self.skills@ == recorded(old(self).skills@, vs.take(i as int)),
            decreases loaded.len() - i,
        {
            let s = loaded[i].clone();
            let name = s.metadata.name.clone();
            self.skills.insert(name, s);
            assert(vs.take(i + 1).drop_last() =~= vs.take(i as int));
            assert(vs.take(i + 1).last() == loaded@[i as int]@);
            i += 1;
        }
        assert(vs.take(vs.len() as int) =~= vs);
    }

    /// The skill named `name`.
    pub fn get(&self, name: &str) -> (r: Option<&Skill>)
        ensures
            r is Some <==> self.skill_map().contains_key(name@),
            r matches Some(s) ==> s@ == self.skill_map()[name@],
    {
        self.skills.get(name)
    }

    /// The names of the skills kept.
    pub fn list(&self) -> (r: Vec<String>)
        ensures
            views(r@) == self.names(),
            self.names().no_duplicates(),
            forall|k: Seq<char>| self.skill_map().contains_key(k) <==> self.names().contains(k),
    {
        self.skills.keys()
    }

    /// The names of the enabled skills, in the order of `names`.
    pub fn list_enabled(&self) -> (r: Vec<String>)
        ensures
            views(r@) == enabled_names(self.skill_map(), self.names()),
    {
        let mut r: Vec<String> = Vec::new();
        let n = self.skills.entry_count();
        let ghost ks = self.names();
        let mut i: usize = 0;
        while i < n
            invariant
                n == ks.len(),
                ks == self.skills.key_order(),
                i <= n,
                views(r@) == enabled_names(self.skill_map(), ks.take(i as int)),
            decreases n - i,
        {
            let (k, s) = self.skills.entry(i);
            assert(ks.take(i + 1).drop_last() == ks.take(i as int));
            assert(ks.take(i + 1).last() == ks[i as int]);
            if s.metadata.enabled {
                let ghost before = views(r@);
                r.push(k.clone());
                assert(views(r@) =~= before.push(ks[i as int]));
            }
            i += 1;
        }
        assert(ks.take(n as int) == ks);
        r
    }

    /// The enabled skills that fit the tool groups, in the order of
    /// `names`.
    pub fn get_skills_for_tools(&self, tool_groups: &Vec<String>) -> (r: Vec<&Skill>)
        ensures
            r@.map_values(|s: &Skill| s@) == fitting(self.skill_map(), self.names(), views(tool_groups@)),
    {
        let mut r: Vec<&Skill> = Vec::new();
        let n = self.skills.entry_count();
        let ghost ks = self.names();
        let mut i: usize = 0;
        while i < n
            invariant
                n == ks.len(),
                ks == self.skills.key_order(),
                i <= n,
                r@.map_values(|s: &Skill| s@) == fitting(self.skill_map(), ks.take(i as int), views(tool_groups@)),
            decreases n - i,
        {
            let (k, s) = self.skills.entry(i);
            assert(ks.take(i + 1).drop_last() == ks.take(i as int));
            assert(ks.take(i + 1).last() == ks[i as int]);
            let fits = match &s.metadata.required_tools {
                Some(req) => {
                    let f = any_in(req, tool_groups);
                    proof {
                        let rv = views(req@);
                        let g = views(tool_groups@);
                        if f {
                            let j = choose|j: int| 0 <= j < req@.len() && g.contains(#[trigger] views(req@)[j]);
                            assert(0 <= j < rv.len() && g.contains(rv[j]));
                        }
                        if fits_tools(Some(rv), g) {
                            let j = choose|j: int| 0 <= j < rv.len() && g.contains(#[trigger] rv[j]);
                            assert(0 <= j < req@.len() && g.contains(views(req@)[j]));
                        }
                    }
                    f
                },
                None => true,
            };
            assert(fits == fits_tools(s@.metadata.required_tools, views(tool_groups@)));
            if fits && s.metadata.enabled {
                let ghost before = r@;
                r.push(s);
                assert(r@.map_values(|s: &Skill| s@) =~= before.map_values(|s: &Skill| s@).push(s@));
            }
            i += 1;
        }
        assert(ks.take(n as int) == ks);
        r
    }

    /// The skills for a prompt: `Available Skills:` and a line for each
    /// of the first `max_skills` enabled skills, naming it, its
    /// directory's name (`unknown` when there is none) and its
    /// description; empty when no skill is enabled.
    pub fn format_for_prompt(&self, max_skills: usize) -> (r: String)
        ensures
            ({
                let shown = crate::memory::at_most(
                    enabled_names(self.skill_map(), self.names()),
                    max_skills as nat,
                );
                if shown.len() == 0 {
                    r@ == Seq::<char>::empty()
                } else {
                    r@ == "Available Skills:\n"@ + join(
                        shown.map_values(
                            |k: Seq<char>| skill_line(
                                self.skill_map()[k].metadata.name,
                                container_name(self.skill_map()[k].container_path),
                                self.skill_map()[k].metadata.description,
                            ),
                        ),
                        "\n"@,
                    )
                }
            }),
    {
        let enabled = self.list_enabled();
        let ghost en = views(enabled@);
        // Its contract tells that the names are distinct.
        let _count = self.skills.entry_count();
        proof {
            lemma_enabled_names_in(self.skill_map(), self.names());
            let ks = self.names();
            assert forall|q: int| 0 <= q < en.len() implies self.skill_map().contains_key(#[trigger] en[q]) by {
                assert(ks.contains(en[q]));
            }
        }
        let ghost shown = crate::memory::at_most(en, max_skills as nat);
        let n = if max_skills < enabled.len() {
            max_skills
        } else {
            enabled.len()
        };
        assert(shown.len() == n);
        if n == 0 {
            return String::new();
        }
        let mut parts: Vec<String> = Vec::new();
        let mut i: usize = 0;
        while i < n
            invariant
                n <= enabled@.len(),
                i <= n,
                en == views(enabled@),
                en == enabled_names(self.skill_map(), self.names()),
                forall|q: int| 0 <= q < en.len() ==> self.skill_map().contains_key(#[trigger] en[q]),
                shown == crate::memory::at_most(en, max_skills as nat),
                shown.len() == n,
                views(parts@) == shown.take(i as int).map_values(
                    |k: Seq<char>| skill_line(
                        self.skill_map()[k].metadata.name,
                        container_name(self.skill_map()[k].container_path),
                        self.skill_map()[k].metadata.description,
                    ),
                ),
            decreases n - i,
        {
            assert(en[i as int] == shown[i as int]);
            assert(self.skill_map().contains_key(en[i as int]));
            let name = enabled[i].as_str();
            let s = match self.skills.get(name) {
                Some(s) => s,
                None => {
                    return String::new();
                },
            };
            let container = match &s.container_path {
                Some(p) => match file_name_of(p.as_str()) {
                    Some(f) => f,
                    None => owned("unknown"),
                },
                None => owned("unknown"),
            };
            let a = concat3("- **", s.metadata.name.as_str(), "** (");
            let line = concat4(a.as_str(), container.as_str(), "): ", s.metadata.description.as_str());
            let ghost before = views(parts@);
            parts.push(line);
            assert(views(parts@) =~= before.push(line@));
            assert(shown.take(i + 1) =~= shown.take(i as int).push(shown[i as int]));
            i += 1;
        }
        assert(shown.take(n as int) == shown);
        let body = join_strings(&parts, "\n");
        concat2("Available Skills:\n", body.as_str())
    }
}

/// The name of a skill's directory, or `unknown`.
pub open spec fn container_name(p: Option<Seq<char>>) -> Seq<char> {
    match p {
        Some(path) => match path_file_name(path) {
            Some(n) => n,
            None => "unknown"@,
        },
        None => "unknown"@,
    }
}

/// Whether some string of `a` is among those of `b`.
fn any_in(a: &Vec<String>, b: &Vec<String>) -> (r: bool)
    ensures
        r == exists|i: int| 0 <= i < a@.len() && views(b@).contains(#[trigger] views(a@)[i]),
{
    let mut i: usize = 0;
    while i < a.len()
        invariant
            i <= a@.len(),
            forall|k: int| 0 <= k < i ==> !views(b@).contains(#[trigger] views(a@)[k]),
        decreases a.len() - i,
    {
        let mut j: usize = 0;
        while j < b.len()
            invariant
                j <= b@.len(),
                i < a@.len(),
                forall|q: int| 0 <= q < j ==> views(b@)[q] != a@[i as int]@,
            decreases b.len() - j,
        {
            if str_eq(b[j].as_str(), a[i].as_str()) {
                assert(views(b@)[j as int] == views(a@)[i as int]);
                return true;
            }
            j += 1;
        }
        assert(!views(b@).contains(views(a@)[i as int]));
        i += 1;
    }
    false
}

/// The names of the enabled skills among `ks`, in order.
pub open spec fn enabled_names(m: Map<Seq<char>, SkillModel>, ks: Seq<Seq<char>>) -> Seq<Seq<char>>
    decreases ks.len(),
{
    if ks.len() == 0 {
        Seq::empty()
    } else if m[ks.last()].metadata.enabled {
        enabled_names(m, ks.drop_last()).push(ks.last())
    } else {
        enabled_names(m, ks.drop_last())
    }
}

/// The enabled skills among `ks` that fit the tool groups, in order.
pub open spec fn fitting(m: Map<Seq<char>, SkillModel>, ks: Seq<Seq<char>>, groups: Seq<Seq<char>>) -> Seq<SkillModel>
    decreases ks.len(),
{
    if ks.len() == 0 {
        Seq::empty()
    } else if fits_tools(m[ks.last()].metadata.required_tools, groups) && m[ks.last()].metadata.enabled {
        fitting(m, ks.drop_last(), groups).push(m[ks.last()])
    } else {
        fitting(m, ks.drop_last(), groups)
    }
}

/// The enabled skills' names among `ks` are those of `ks` whose skill is
/// enabled, in order.
pub proof fn lemma_enabled_names_filter(m: Map<Seq<char>, SkillModel>, ks: Seq<Seq<char>>)
    ensures
        enabled_names(m, ks) == ks.filter(|k: Seq<char>| m[k].metadata.enabled),
    decreases ks.len(),
{
    if ks.len() > 0 {
        let p = ks.drop_last();
        lemma_enabled_names_filter(m, p);
        p.lemma_filter_push(ks.last(), |k: Seq<char>| m[k].metadata.enabled);
        assert(ks =~= p.push(ks.last()));
    }
}

/// The skills that fit are those, in order, of the names among `ks`
/// whose skill is enabled and fits the tool groups.
pub proof fn lemma_fitting_filter(m: Map<Seq<char>, SkillModel>, ks: Seq<Seq<char>>, groups: Seq<Seq<char>>)
    ensures
        fitting(m, ks, groups) == ks.filter(
            |k: Seq<char>| fits_tools(m[k].metadata.required_tools, groups) && m[k].metadata.enabled,
        ).map_values(|k: Seq<char>| m[k]),
    decreases ks.len(),
{
    let pred = |k: Seq<char>| fits_tools(m[k].metadata.required_tools, groups) && m[k].metadata.enabled;
    if ks.len() > 0 {
        let p = ks.drop_last();
        lemma_fitting_filter(m, p, groups);
        p.lemma_filter_push(ks.last(), pred);
        assert(ks =~= p.push(ks.last()));
        if pred(ks.last()) {
            assert(p.filter(pred).push(ks.last()).map_values(|k: Seq<char>| m[k]) =~= p.filter(
                pred,
            ).map_values(|k: Seq<char>| m[k]).push(m[ks.last()]));
        }
    } else {
        assert(ks.filter(pred) =~= Seq::<Seq<char>>::empty());
    }
}

/// Of skills kept under distinct names, the skills for the tool groups
/// come one per name, each name at most once, and a name's skill comes
/// exactly when it is enabled and needs no tool group or one of them.
pub proof fn law_skills_for_tools(m: Map<Seq<char>, SkillModel>, ks: Seq<Seq<char>>, groups: Seq<Seq<char>>)
    requires
        ks.no_duplicates(),
    ensures
        ({
            let chosen = ks.filter(
                |k: Seq<char>| fits_tools(m[k].metadata.required_tools, groups) && m[k].metadata.enabled,
            );
            &&& fitting(m, ks, groups) == chosen.map_values(|k: Seq<char>| m[k])
            &&& chosen.no_duplicates()
            &&& forall|k: Seq<char>|
                #[trigger] chosen.contains(k) <==> ks.contains(k) && m[k].metadata.enabled && fits_tools(
                    m[k].metadata.required_tools,
                    groups,
                )
        }),
{
    lemma_fitting_filter(m, ks, groups);
    crate::text::lemma_filter_distinct(
        ks,
        |k: Seq<char>| fits_tools(m[k].metadata.required_tools, groups) && m[k].metadata.enabled,
    );
}

/// Of skills kept under distinct names, a prompt shows the first
/// `max_skills` enabled ones, each once, and no disabled one: as many as
/// the smaller of `max_skills` and the number of enabled skills.
pub proof fn law_prompt_shows_enabled(m: Map<Seq<char>, SkillModel>, ks: Seq<Seq<char>>, max_skills: nat)
    requires
        ks.no_duplicates(),
    ensures
        ({
            let enabled = ks.filter(|k: Seq<char>| m[k].metadata.enabled);
            let shown = crate::memory::at_most(enabled_names(m, ks), max_skills);
            &&& enabled_names(m, ks) == enabled
            &&& shown.len() == if max_skills < enabled.len() { max_skills } else { enabled.len() }
            &&& shown.no_duplicates()
            &&& forall|q: int| 0 <= q < shown.len() ==> ks.contains(#[trigger] shown[q])
                && m[shown[q]].metadata.enabled
        }),
{
    let p = |k: Seq<char>| m[k].metadata.enabled;
    lemma_enabled_names_filter(m, ks);
    crate::text::lemma_filter_distinct(ks, p);
    let enabled = ks.filter(p);
    let shown = crate::memory::at_most(enabled, max_skills);
    assert forall|q: int| 0 <= q < shown.len() implies ks.contains(#[trigger] shown[q])
        && m[shown[q]].metadata.enabled by {
        assert(shown[q] == enabled[q]);
        assert(enabled.contains(enabled[q]));
    }
    assert forall|a: int, b: int| 0 <= a < b < shown.len() implies shown[a] != shown[b] by {
        assert(shown[a] == enabled[a] && shown[b] == enabled[b]);
    }
}

proof fn lemma_enabled_names_in(m: Map<Seq<char>, SkillModel>, ks: Seq<Seq<char>>)
    ensures
        forall|q: int| 0 <= q < enabled_names(m, ks).len() ==> ks.contains(#[trigger] enabled_names(m, ks)[q]),
    decreases ks.len(),
{
    if ks.len() > 0 {
        lemma_enabled_names_in(m, ks.drop_last());
        let p = enabled_names(m, ks.drop_last());
        assert forall|q: int| 0 <= q < enabled_names(m, ks).len() implies ks.contains(
            #[trigger] enabled_names(m, ks)[q],
        ) by {
            if q < p.len() {
                assert(enabled_names(m, ks)[q] == p[q]);
                assert(ks.drop_last().contains(p[q]));
                let j = choose|j: int| 0 <= j < ks.drop_last().len() && ks.drop_last()[j] == p[q];
                assert(ks[j] == p[q]);
            } else {
                assert(ks[ks.len() - 1] == enabled_names(m, ks)[q]);
            }
        }
    }
}

} // verus!
