//! The lint-staged rules of a directory: which formatter command runs
//! on a saved file. Finding and reading the config file is the
//! caller's; the library turns its JSON into rules and picks the
//! command for a path.
use vstd::prelude::*;
use crate::json::{spec_as_str, spec_get, Json};
use crate::paths::{file_name, parent_path, paths_equal, strip_path_prefix, utf8_file_name, utf8_parent, utf8_path_eq, utf8_strip_prefix};
use crate::text::{contains_seq, chars_of, str_contains};

verus! {

/// Whether `globset` builds a matcher for `pattern`: `Glob::new`
/// accepts it and a `GlobSet` of it builds (its regex stays within
/// globset's size limit).
pub uninterp spec fn globset_builds(pattern: Seq<char>) -> bool;

/// Whether the matcher `globset` builds from `pattern` matches `path`.
pub uninterp spec fn globset_match(pattern: Seq<char>, path: Seq<char>) -> bool;

/// `globset::Glob::new(pattern)`, then a `GlobSetBuilder` holding it,
/// built: whether both succeed. `Glob::compile_matcher` panics where the
/// regex outgrows globset's limit; `GlobSetBuilder::build` reports it.
#[verifier::external_body]
pub(crate) fn glob_builds(pattern: &str) -> (r: bool)
    ensures
        r == globset_builds(pattern@),
{
    match globset::Glob::new(pattern) {
        Ok(g) => globset::GlobSetBuilder::new().add(g).build().is_ok(),
        Err(_) => false,
    }
}

/// The one-glob `GlobSet` of `pattern`, as [`glob_builds`] makes it,
/// tested on `path` (`GlobSet::is_match`). The result is named, not
/// stated; a pattern that builds once builds again, so the `Err` arms
/// are never taken.
#[verifier::external_body]
pub(crate) fn glob_is_match(pattern: &str, path: &str) -> (r: bool)
    requires
        globset_builds(pattern@),
    ensures
        r == globset_match(pattern@, path@),
{
    match globset::Glob::new(pattern) {
        Ok(g) => match globset::GlobSetBuilder::new().add(g).build() {
            Ok(set) => set.is_match(path),
            Err(_) => false,
        },
        Err(_) => false,
    }
}

/// One `pattern: commands` entry of a lint-staged config.
#[derive(Debug)]
pub struct LintStagedRule {
    pub pattern: String,
    /// A pattern with a `/` matches the path relative to the config's
    /// directory; one without matches the file name alone (micromatch's
    /// `matchBase`).
    pub has_separator: bool,
    pub commands: Vec<String>,
}

/// The rules of one config file, in the order the config lists them,
/// and the directory the config sits in (`None`: no config at all).
#[derive(Debug)]
pub struct LintStagedRules {
    pub config_dir: Option<String>,
    pub rules: Vec<LintStagedRule>,
}

/// A rule as values.
pub ghost struct RuleView {
    pub pattern: Seq<char>,
    pub has_separator: bool,
    pub commands: Seq<Seq<char>>,
}

impl View for LintStagedRule {
    type V = RuleView;

    open spec fn view(&self) -> RuleView {
        RuleView { pattern: self.pattern@, has_separator: self.has_separator, commands: self.commands.deep_view() }
    }
}

/// The views of a list of rules.
pub open spec fn rules_view(v: Seq<LintStagedRule>) -> Seq<RuleView> {
    v.map_values(|r: LintStagedRule| r@)
}

/// A rule compiles, knows whether its pattern holds a `/`, and has a
/// command.
pub open spec fn rule_ok(r: RuleView) -> bool {
    &&& globset_builds(r.pattern)
    &&& r.has_separator == contains_seq(r.pattern, "/"@)
    &&& r.commands.len() > 0
}

/// Whether rule `r` applies to the file at `abs`, given `abs` relative to
/// the config's directory (`rel`).
pub open spec fn rule_hits(r: RuleView, rel: Option<Seq<char>>, abs: Seq<char>) -> bool {
    if r.has_separator {
        match rel {
            Some(p) => globset_match(r.pattern, p),
            None => false,
        }
    } else {
        match utf8_file_name(abs) {
            Some(n) => globset_match(r.pattern, n),
            None => false,
        }
    }
}

/// Index of the first rule of `rules` that applies.
pub open spec fn first_hit(rules: Seq<RuleView>, rel: Option<Seq<char>>, abs: Seq<char>) -> Option<int>
    decreases rules.len(),
{
    if rules.len() == 0 {
        None
    } else if rule_hits(rules[0], rel, abs) {
        Some(0)
    } else {
        match first_hit(rules.skip(1), rel, abs) {
            Some(i) => Some(i + 1),
            None => None,
        }
    }
}

proof fn lemma_first_hit(rules: Seq<RuleView>, rel: Option<Seq<char>>, abs: Seq<char>, i: int)
    requires
        0 <= i <= rules.len(),
        forall|j: int| 0 <= j < i ==> !rule_hits(#[trigger] rules[j], rel, abs),
    ensures
        i < rules.len() && rule_hits(rules[i], rel, abs) ==> first_hit(rules, rel, abs) == Some(i),
        i == rules.len() ==> first_hit(rules, rel, abs) is None,
    decreases i,
{
    if i > 0 {
        assert forall|j: int| 0 <= j < i - 1 implies !rule_hits(#[trigger] rules.skip(1)[j], rel, abs) by {
            assert(rules.skip(1)[j] == rules[j + 1]);
        }
        lemma_first_hit(rules.skip(1), rel, abs, i - 1);
    }
}

proof fn lemma_first_hit_bound(rules: Seq<RuleView>, rel: Option<Seq<char>>, abs: Seq<char>)
    ensures
        first_hit(rules, rel, abs) matches Some(i) ==> 0 <= i < rules.len(),
    decreases rules.len(),
{
    if rules.len() > 0 {
        lemma_first_hit_bound(rules.skip(1), rel, abs);
    }
}

impl LintStagedRules {
    /// Every rule is well-formed.
    pub open spec fn wf(&self) -> bool {
        forall|i: int| 0 <= i < self.rules@.len() ==> rule_ok(#[trigger] self.rules@[i]@)
    }

    /// `abs` relative to the config's directory, if under it.
    pub open spec fn relative(&self, abs: Seq<char>) -> Option<Seq<char>> {
        match self.config_dir {
            Some(d) => utf8_strip_prefix(abs, d@),
            None => None,
        }
    }

    /// The command a file at `abs` is formatted with: the first command
    /// of the first rule that applies.
    pub open spec fn command_for(&self, abs: Seq<char>) -> Option<Seq<char>> {
        match first_hit(rules_view(self.rules@), self.relative(abs), abs) {
            Some(i) => Some(self.rules@[i]@.commands[0]),
            None => None,
        }
    }

    /// No config: no rules, no directory.
    pub fn empty() -> (r: LintStagedRules)
        ensures
            r.wf(),
            r.config_dir is None,
            r.rules@.len() == 0,
    {
        LintStagedRules { config_dir: None, rules: Vec::new() }
    }

    /// The first command of the first rule that applies to the file at
    /// `abs_path`; `None` when no rule does. Of a chain of commands only
    /// the first runs.
    pub fn match_command(&self, abs_path: &str) -> (r: Option<String>)
        requires
            self.wf(),
        ensures
            match r {
                Some(c) => self.command_for(abs_path@) == Some(c@),
                None => self.command_for(abs_path@) is None,
            },
    {
        let rel = match &self.config_dir {
            Some(cd) => strip_path_prefix(abs_path, cd.as_str()),
            None => None,
        };
        let ghost relv = match &rel {
            Some(r) => Some(r@),
            None => None,
        };
        assert(relv == self.relative(abs_path@));
        let name = file_name(abs_path);
        let ghost rv = rules_view(self.rules@);
        let mut i: usize = 0;
        while i < self.rules.len()
            invariant
                i <= self.rules.len(),
                self.wf(),
                rv == rules_view(self.rules@),
                relv == self.relative(abs_path@),
                relv == match &rel {
                    Some(r) => Some(r@),
                    None => None,
                },
                match &name {
                    Some(n) => utf8_file_name(abs_path@) == Some(n@),
                    None => utf8_file_name(abs_path@) is None,
                },
                forall|j: int| 0 <= j < i ==> !rule_hits(#[trigger] rv[j], relv, abs_path@),
            decreases self.rules.len() - i,
        {
            let rule = &self.rules[i];
            assert(rv[i as int] == rule@);
            assert(rule_ok(self.rules@[i as int]@));
            let hit = if rule.has_separator {
                match &rel {
                    Some(r) => glob_is_match(rule.pattern.as_str(), r.as_str()),
                    None => false,
                }
            } else {
                match &name {
                    Some(n) => glob_is_match(rule.pattern.as_str(), n.as_str()),
                    None => false,
                }
            };
            assert(hit == rule_hits(rv[i as int], relv, abs_path@));
            if hit {
                proof {
                    lemma_first_hit(rv, relv, abs_path@, i as int);
                }
                assert(rule.commands.deep_view()[0] == rule.commands[0]@);
                return Some(rule.commands[0].clone());
            }
            i = i + 1;
        }
        proof {
            lemma_first_hit(rv, relv, abs_path@, i as int);
        }
        None
    }

    /// Every command of the first rule that applies to the file at
    /// `abs_path`, in order; `None` when no rule does.
    pub fn match_commands(&self, abs_path: &str) -> (r: Option<Vec<String>>)
        requires
            self.wf(),
        ensures
            match r {
                Some(c) => first_hit(rules_view(self.rules@), self.relative(abs_path@), abs_path@) matches Some(i)
                    && c.deep_view() == self.rules@[i]@.commands,
                None => first_hit(rules_view(self.rules@), self.relative(abs_path@), abs_path@) is None,
            },
    {
        let rel = match &self.config_dir {
            Some(cd) => strip_path_prefix(abs_path, cd.as_str()),
            None => None,
        };
        let ghost relv = match &rel {
            Some(r) => Some(r@),
            None => None,
        };
        let name = file_name(abs_path);
        let ghost rv = rules_view(self.rules@);
        let mut i: usize = 0;
        while i < self.rules.len()
            invariant
                i <= self.rules.len(),
                self.wf(),
                rv == rules_view(self.rules@),
                relv == self.relative(abs_path@),
                relv == match &rel {
                    Some(r) => Some(r@),
                    None => None,
                },
                match &name {
                    Some(n) => utf8_file_name(abs_path@) == Some(n@),
                    None => utf8_file_name(abs_path@) is None,
                },
                forall|j: int| 0 <= j < i ==> !rule_hits(#[trigger] rv[j], relv, abs_path@),
            decreases self.rules.len() - i,
        {
            let rule = &self.rules[i];
            assert(rv[i as int] == rule@);
            assert(rule_ok(self.rules@[i as int]@));
            let hit = if rule.has_separator {
                match &rel {
                    Some(r) => glob_is_match(rule.pattern.as_str(), r.as_str()),
                    None => false,
                }
            } else {
                match &name {
                    Some(n) => glob_is_match(rule.pattern.as_str(), n.as_str()),
                    None => false,
                }
            };
            if hit {
                proof {
                    lemma_first_hit(rv, relv, abs_path@, i as int);
                }
                let mut out: Vec<String> = Vec::new();
                let mut k: usize = 0;
                while k < rule.commands.len()
                    invariant
                        k <= rule.commands.len(),
                        out.deep_view() == rule.commands.deep_view().take(k as int),
                    decreases rule.commands.len() - k,
                {
                    out.push(rule.commands[k].clone());
                    assert(rule.commands.deep_view().take(k + 1) =~= rule.commands.deep_view().take(k as int).push(rule.commands@[k as int]@));
                    assert(out.deep_view() =~= rule.commands.deep_view().take(k + 1));
                    k = k + 1;
                }
                assert(rule.commands.deep_view().take(rule.commands.len() as int) =~= rule.commands.deep_view());
                return Some(out);
            }
            i = i + 1;
        }
        proof {
            lemma_first_hit(rv, relv, abs_path@, i as int);
        }
        None
    }

    /// Whether there are no rules.
    pub fn is_empty(&self) -> (r: bool)
        ensures
            r == (self.rules@.len() == 0),
    {
        self.rules.len() == 0
    }

    /// What a save runs for the file at `abs_path` in the workspace
    /// `root`: every command of the first rule that applies, in order,
    /// from the config's directory (the root when there is none);
    /// `None` when no rule applies, so the default formatter gets its
    /// turn.
    pub fn chain_for(&self, abs_path: &str, root: &str) -> (r: Option<(String, Vec<String>)>)
        requires
            self.wf(),
        ensures
            match r {
                Some((cwd, cmds)) => first_hit(rules_view(self.rules@), self.relative(abs_path@), abs_path@) matches Some(i)
                    && cmds.deep_view() == self.rules@[i]@.commands && cmds@.len() > 0 && cwd@ == match self.config_dir {
                    Some(d) => d@,
                    None => root@,
                },
                None => first_hit(rules_view(self.rules@), self.relative(abs_path@), abs_path@) is None,
            },
    {
        if self.is_empty() {
            proof {
                lemma_first_hit(rules_view(self.rules@), self.relative(abs_path@), abs_path@, 0);
            }
            return None;
        }
        let commands = match self.match_commands(abs_path) {
            Some(c) => c,
            None => {
                return None;
            },
        };
        proof {
            let i = first_hit(rules_view(self.rules@), self.relative(abs_path@), abs_path@)->Some_0;
            lemma_first_hit_bound(rules_view(self.rules@), self.relative(abs_path@), abs_path@);
            assert(rules_view(self.rules@)[i] == self.rules@[i]@);
            assert(rule_ok(self.rules@[i]@));
        }
        let cwd = match &self.config_dir {
            Some(d) => d.clone(),
            None => root.to_owned(),
        };
        Some((cwd, commands))
    }

    /// The directory of the config file, if one was found.
    pub fn config_dir(&self) -> (r: Option<&String>)
        ensures
            r == match &self.config_dir {
                Some(d) => Some(d),
                None => None,
            },
    {
        match &self.config_dir {
            Some(d) => Some(d),
            None => None,
        }
    }
}

/// The texts among the values `a`, in order.
pub open spec fn strings_in(a: Seq<Json>) -> Seq<Seq<char>>
    decreases a.len(),
{
    if a.len() == 0 {
        seq![]
    } else {
        let own = match spec_as_str(a.last()) {
            Some(s) => seq![s],
            None => seq![],
        };
        strings_in(a.drop_last()) + own
    }
}

/// The commands a config value lists: a string is one command, an
/// array its strings; anything else lists none.
pub open spec fn commands_in(v: Json) -> Option<Seq<Seq<char>>> {
    match v {
        Json::Str(s) => Some(seq![s@]),
        Json::Array(a) => Some(strings_in(a@)),
        _ => None,
    }
}

/// The rule of one config member, unless it lists no command or its
/// pattern does not compile.
pub open spec fn rule_of(member: (String, Json)) -> Option<RuleView> {
    match commands_in(member.1) {
        Some(cmds) => if cmds.len() == 0 || !globset_builds(member.0@) {
            None
        } else {
            Some(RuleView { pattern: member.0@, has_separator: contains_seq(member.0@, "/"@), commands: cmds })
        },
        None => None,
    }
}

/// The rules of the config members `m`, in order.
pub open spec fn rules_of(m: Seq<(String, Json)>) -> Seq<RuleView>
    decreases m.len(),
{
    if m.len() == 0 {
        seq![]
    } else {
        let own = match rule_of(m.last()) {
            Some(r) => seq![r],
            None => seq![],
        };
        rules_of(m.drop_last()) + own
    }
}

fn commands_of(v: &Json) -> (r: Option<Vec<String>>)
    ensures
        match r {
            Some(c) => commands_in(*v) == Some(c.deep_view()),
            None => commands_in(*v) is None,
        },
{
    match v {
        Json::Str(s) => {
            let mut out: Vec<String> = Vec::new();
            out.push(s.clone());
            assert(out.deep_view() =~= seq![s@]);
            Some(out)
        },
        Json::Array(a) => {
            let mut out: Vec<String> = Vec::new();
            let mut i: usize = 0;
            assert(a@.take(0) =~= Seq::<Json>::empty());
            assert(out.deep_view() =~= Seq::<Seq<char>>::empty());
            while i < a.len()
                invariant
                    i <= a.len(),
                    out.deep_view() == strings_in(a@.take(i as int)),
                decreases a.len() - i,
            {
                let ghost o0 = out.deep_view();
                match a[i].as_str() {
                    Some(t) => {
                        out.push(t.to_owned());
                        assert(out.deep_view() =~= o0.push(t@));
                    },
                    None => {},
                }
                assert(a@.take(i + 1).drop_last() =~= a@.take(i as int));
                assert(a@.take(i + 1).last() == a@[i as int]);
                assert(out.deep_view() =~= strings_in(a@.take(i + 1)));
                i = i + 1;
            }
            assert(a@.take(a.len() as int) =~= a@);
            Some(out)
        },
        _ => None,
    }
}

/// Turn a lint-staged config object (`pattern: command | [commands]`)
/// found in `config_dir` into rules, in member order; members that list
/// no command or whose pattern does not compile are skipped. A value
/// that is not an object is refused.
pub fn parse_value(value: &Json, config_dir: &str) -> (r: Result<LintStagedRules, String>)
    ensures
        match r {
            Ok(rules) => {
                &&& value is Object
                &&& rules.wf()
                &&& rules.config_dir matches Some(d) && d@ == config_dir@
                &&& rules_view(rules.rules@) == rules_of(value->Object_0@)
            },
            Err(e) => !(value is Object) && e@ == "lint-staged config must be an object"@,
        },
{
    let members = match value.as_object() {
        Some(m) => m,
        None => {
            return Err("lint-staged config must be an object".to_owned());
        },
    };
    let mut rules: Vec<LintStagedRule> = Vec::new();
    let mut i: usize = 0;
    assert(members@.take(0) =~= Seq::<(String, Json)>::empty());
    assert(rules_view(rules@) =~= Seq::<RuleView>::empty());
    while i < members.len()
        invariant
            i <= members.len(),
            rules_view(rules@) == rules_of(members@.take(i as int)),
            forall|k: int| 0 <= k < rules@.len() ==> rule_ok(#[trigger] rules@[k]@),
        decreases members.len() - i,
    {
        let ghost r0 = rules@;
        let (pattern, cmds) = (&members[i].0, &members[i].1);
        match commands_of(cmds) {
            Some(commands) => {
                if commands.len() > 0 && glob_builds(pattern.as_str()) {
                    let slash = chars_of("/");
                    let pc = chars_of(pattern.as_str());
                    let has_separator = crate::text::contains_chars(pc.as_slice(), slash.as_slice());
                    let rule = LintStagedRule { pattern: pattern.clone(), has_separator, commands };
                    rules.push(rule);
                    assert(rules@ =~= r0.push(rule));
                    assert(rules_view(rules@) =~= rules_view(r0).push(rule@));
                    assert forall|k: int| 0 <= k < rules@.len() implies rule_ok(#[trigger] rules@[k]@) by {
                        if k < r0.len() {
                            assert(rules@[k] == r0[k]);
                        }
                    }
                }
            },
            None => {},
        }
        assert(members@.take(i + 1).drop_last() =~= members@.take(i as int));
        assert(members@.take(i + 1).last() == members@[i as int]);
        assert(rules_view(rules@) =~= rules_of(members@.take(i + 1)));
        i = i + 1;
    }
    assert(members@.take(members.len() as int) =~= members@);
    let out = LintStagedRules { config_dir: Some(config_dir.to_owned()), rules };
    Ok(out)
}

/// The rules of a `package.json` found in `config_dir`: `None` when it
/// has no `lint-staged` member, else what that member parses to.
pub fn package_json_rules(value: &Json, config_dir: &str) -> (r: Option<Result<LintStagedRules, String>>)
    ensures
        match spec_get(*value, "lint-staged"@) {
            None => r is None,
            Some(m) => r matches Some(res) && match res {
                Ok(rules) => {
                    &&& m is Object
                    &&& rules.wf()
                    &&& rules.config_dir matches Some(d) && d@ == config_dir@
                    &&& rules_view(rules.rules@) == rules_of(m->Object_0@)
                },
                Err(e) => !(m is Object) && e@ == "lint-staged config must be an object"@,
            },
        },
{
    match value.get("lint-staged") {
        None => None,
        Some(m) => Some(parse_value(m, config_dir)),
    }
}

/// A config file of a directory as the caller found it: absent, present
/// but unreadable or not JSON, or its JSON.
#[derive(Debug)]
pub enum ConfigFile {
    Missing,
    Unreadable,
    Parsed(Json),
}

/// What a directory's config files give: `None` when it has none that
/// decides (the search goes on upwards), else its rules. A
/// `.lintstagedrc.json` decides even when broken (then with no rules);
/// a `package.json` decides when broken or when it has a
/// `lint-staged` member.
pub open spec fn dir_rules_spec(rc: ConfigFile, pkg: ConfigFile) -> Option<Option<Json>> {
    match rc {
        ConfigFile::Parsed(v) => Some(Some(v)),
        ConfigFile::Unreadable => Some(None),
        ConfigFile::Missing => match pkg {
            ConfigFile::Parsed(v) => match spec_get(v, "lint-staged"@) {
                Some(m) => Some(Some(m)),
                None => None,
            },
            ConfigFile::Unreadable => Some(None),
            ConfigFile::Missing => None,
        },
    }
}

/// The rules a directory `dir` decides on, given its `.lintstagedrc.json`
/// (`rc`) and `package.json` (`pkg`): `None` to look further up; an
/// unreadable file, or a config value that is not an object, gives no
/// rules.
pub fn rules_in_dir(rc: &ConfigFile, pkg: &ConfigFile, dir: &str) -> (r: Option<LintStagedRules>)
    ensures
        match dir_rules_spec(*rc, *pkg) {
            None => r is None,
            Some(None) => r matches Some(rules) && rules.wf() && rules.config_dir is None && rules.rules@.len() == 0,
            Some(Some(v)) => r matches Some(rules) && rules.wf() && if v is Object {
                &&& rules.config_dir matches Some(d) && d@ == dir@
                &&& rules_view(rules.rules@) == rules_of(v->Object_0@)
            } else {
                rules.config_dir is None && rules.rules@.len() == 0
            },
        },
{
    let value: &Json = match rc {
        ConfigFile::Parsed(v) => v,
        ConfigFile::Unreadable => {
            return Some(LintStagedRules::empty());
        },
        ConfigFile::Missing => match pkg {
            ConfigFile::Parsed(v) => match v.get("lint-staged") {
                Some(m) => m,
                None => {
                    return None;
                },
            },
            ConfigFile::Unreadable => {
                return Some(LintStagedRules::empty());
            },
            ConfigFile::Missing => {
                return None;
            },
        },
    };
    match parse_value(value, dir) {
        Ok(rules) => Some(rules),
        Err(_) => Some(LintStagedRules::empty()),
    }
}

/// The directories searched for a config, nearest first: `dir`, then
/// each parent, ending with the workspace `root` (or at a directory
/// without a parent).
pub open spec fn search_dirs(dir: Seq<char>, root: Seq<char>) -> Seq<Seq<char>>
    decreases dir.len(),
{
    if utf8_path_eq(dir, root) {
        seq![dir]
    } else {
        match utf8_parent(dir) {
            Some(p) => if p.len() < dir.len() {
                seq![dir] + search_dirs(p, root)
            } else {
                seq![dir]
            },
            None => seq![dir],
        }
    }
}

/// See [`search_dirs`]; the first of these whose files decide (see
/// [`rules_in_dir`]) gives the rules, with no merging across levels.
pub fn config_search_dirs(dir: &str, root: &str) -> (r: Vec<String>)
    ensures
        r.deep_view() == search_dirs(dir@, root@),
{
    let mut out: Vec<String> = Vec::new();
    let mut cur: String = dir.to_owned();
    let ghost mut done: Seq<Seq<char>> = seq![];
    assert(out.deep_view() =~= Seq::<Seq<char>>::empty());
    loop
        invariant_except_break
            done + search_dirs(cur@, root@) == search_dirs(dir@, root@),
            out.deep_view() == done,
        ensures
            out.deep_view() == search_dirs(dir@, root@),
        decreases cur@.len(),
    {
        let ghost d0 = done;
        out.push(cur.clone());
        proof {
            done = d0.push(cur@);
        }
        assert(out.deep_view() =~= done);
        if paths_equal(cur.as_str(), root) {
            assert(search_dirs(cur@, root@) =~= seq![cur@]);
            assert(d0 + search_dirs(cur@, root@) =~= done);
            break;
        }
        match parent_path(cur.as_str()) {
            Some(p) => {
                assert(search_dirs(cur@, root@) =~= seq![cur@] + search_dirs(p@, root@));
                assert(d0 + search_dirs(cur@, root@) =~= done + search_dirs(p@, root@));
                cur = p;
            },
            None => {
                assert(search_dirs(cur@, root@) =~= seq![cur@]);
                assert(d0 + search_dirs(cur@, root@) =~= done);
                break;
            },
        }
    }
    out
}

} // verus!
