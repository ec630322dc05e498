//! The configuration data model: command lists, aliases, recipes, and the
//! selections the interactive layer builds over them. File loading and
//! serialization live outside the library; everything here is pure logic.
use vstd::prelude::*;
use vstd::string::StringExecFns;

use crate::text::{
    bytes_eq_ignore_ascii_case, eq_ignore_ascii_case_bytes, str_eq, string_eq, trim_text,
    trim_unicode_spaces,
};

verus! {

/// What the command-line layer hands to `start`: the configuration, plus the
/// ambient choices made on the command line.
pub struct StartTogetherOptions {
    pub config: TogetherConfigFile,
    pub working_directory: Option<String>,
    pub active_recipes: Option<Vec<String>>,
    pub config_path: Option<String>,
}

/// One configured command: either bare text, or text with an alias, an
/// active-by-default flag, and recipe tags.
pub enum CommandConfig {
    Simple(String),
    Detailed {
        command: String,
        alias: Option<String>,
        active: Option<bool>,
        recipes: Option<Vec<String>>,
    },
}

/// The mathematical value of a `CommandConfig`.
pub enum CommandConfigView {
    Simple(Seq<char>),
    Detailed {
        command: Seq<char>,
        alias: Option<Seq<char>>,
        active: Option<bool>,
        recipes: Option<Seq<Seq<char>>>,
    },
}

/// The values of a sequence of owned strings.
pub open spec fn str_views(s: Seq<String>) -> Seq<Seq<char>> {
    s.map_values(|x: String| x@)
}

/// The value of an optional owned string.
pub open spec fn opt_text_view(o: Option<String>) -> Option<Seq<char>> {
    match o {
        Some(s) => Some(s@),
        None => None,
    }
}

impl View for CommandConfig {
    type V = CommandConfigView;

    open spec fn view(&self) -> CommandConfigView {
        match self {
            CommandConfig::Simple(s) => CommandConfigView::Simple(s@),
            CommandConfig::Detailed { command, alias, active, recipes } => {
                CommandConfigView::Detailed {
                    command: command@,
                    alias: opt_text_view(*alias),
                    active: *active,
                    recipes: match recipes {
                        Some(v) => Some(str_views(v@)),
                        None => None,
                    },
                }
            },
        }
    }
}

/// The values of a command list.
pub open spec fn cmd_views(s: Seq<CommandConfig>) -> Seq<CommandConfigView> {
    s.map_values(|c: CommandConfig| c@)
}

/// The command text of a configured command.
pub open spec fn spec_command(v: CommandConfigView) -> Seq<char> {
    match v {
        CommandConfigView::Simple(s) => s,
        CommandConfigView::Detailed { command, .. } => command,
    }
}

/// The alias of a configured command, if any.
pub open spec fn spec_alias(v: CommandConfigView) -> Option<Seq<char>> {
    match v {
        CommandConfigView::Simple(_) => None,
        CommandConfigView::Detailed { alias, .. } => alias,
    }
}

/// Whether a configured command is marked active-by-default.
pub open spec fn spec_active(v: CommandConfigView) -> bool {
    match v {
        CommandConfigView::Simple(_) => false,
        CommandConfigView::Detailed { active, .. } => active == Some(true),
    }
}

/// The recipe tags of a configured command.
pub open spec fn spec_recipes(v: CommandConfigView) -> Seq<Seq<char>> {
    match v {
        CommandConfigView::Simple(_) => Seq::empty(),
        CommandConfigView::Detailed { recipes, .. } => {
            match recipes {
                Some(r) => r,
                None => Seq::empty(),
            }
        },
    }
}

/// Whether `text` names this command, by command text or by alias.
pub open spec fn spec_matches(v: CommandConfigView, text: Seq<char>) -> bool {
    spec_command(v) == text || spec_alias(v) == Some(text)
}

/// Whether the command is tagged with `recipe`, compared without regard to
/// ASCII case and with surrounding whitespace of `recipe` ignored.
pub open spec fn spec_contains_recipe(v: CommandConfigView, recipe: Seq<char>) -> bool {
    exists|k: int|
        0 <= k < spec_recipes(v).len() && eq_ignore_ascii_case_bytes(
            vstd::utf8::encode_utf8(#[trigger] spec_recipes(v)[k]),
            vstd::utf8::encode_utf8(trim_unicode_spaces(recipe)),
        )
}

fn opt_string_eq(a: &Option<String>, b: &Option<String>) -> (r: bool)
    ensures
        r == (opt_text_view(*a) == opt_text_view(*b)),
{
    match (a, b) {
        (Some(x), Some(y)) => string_eq(x, y),
        (None, None) => true,
        _ => false,
    }
}

fn opt_bool_eq(a: &Option<bool>, b: &Option<bool>) -> (r: bool)
    ensures
        r == (*a == *b),
{
    match (a, b) {
        (Some(x), Some(y)) => *x == *y,
        (None, None) => true,
        _ => false,
    }
}

fn string_vec_eq(a: &Vec<String>, b: &Vec<String>) -> (r: bool)
    ensures
        r == (str_views(a@) == str_views(b@)),
{
    if a.len() != b.len() {
        proof {
            assert(str_views(a@).len() != str_views(b@).len());
        }
        return false;
    }
    let mut i: usize = 0;
    while i < a.len()
        invariant
            a@.len() == b@.len(),
            i <= a@.len(),
            forall|j: int| 0 <= j < i ==> str_views(a@)[j] == str_views(b@)[j],
        decreases a@.len() - i,
    {
        if !string_eq(&a[i], &b[i]) {
            proof {
                assert(str_views(a@)[i as int] != str_views(b@)[i as int]);
            }
            return false;
        }
        i += 1;
    }
    proof {
        assert(str_views(a@) =~= str_views(b@));
    }
    true
}

fn clone_string_vec(v: &Vec<String>) -> (r: Vec<String>)
    ensures
        str_views(r@) == str_views(v@),
{
    let mut r: Vec<String> = Vec::new();
    let mut i: usize = 0;
    while i < v.len()
        invariant
            i <= v@.len(),
            r@.len() == i,
            forall|j: int| 0 <= j < i ==> str_views(r@)[j] == str_views(v@)[j],
        decreases v@.len() - i,
    {
        r.push(v[i].clone());
        i += 1;
    }
    proof {
        assert(str_views(r@) =~= str_views(v@));
    }
    r
}

impl PartialEq for CommandConfig {
    fn eq(&self, other: &CommandConfig) -> (r: bool) {
        match (self, other) {
            (CommandConfig::Simple(a), CommandConfig::Simple(b)) => string_eq(a, b),
            (
                CommandConfig::Detailed { command: ca, alias: aa, active: xa, recipes: ra },
                CommandConfig::Detailed { command: cb, alias: ab, active: xb, recipes: rb },
            ) => {
                string_eq(ca, cb) && opt_string_eq(aa, ab) && opt_bool_eq(xa, xb) && match (ra,
                    rb,
                ) {
                    (Some(va), Some(vb)) => string_vec_eq(va, vb),
                    (None, None) => true,
                    _ => false,
                }
            },
            _ => false,
        }
    }
}

impl vstd::std_specs::cmp::PartialEqSpecImpl for CommandConfig {
    open spec fn obeys_eq_spec() -> bool {
        true
    }

    open spec fn eq_spec(&self, other: &CommandConfig) -> bool {
        self@ == other@
    }
}

impl Clone for CommandConfig {
    fn clone(&self) -> (r: Self)
        ensures
            r@ == self@,
    {
        match self {
            CommandConfig::Simple(s) => CommandConfig::Simple(s.clone()),
            CommandConfig::Detailed { command, alias, active, recipes } => CommandConfig::Detailed {
                command: command.clone(),
                alias: match alias {
                    Some(a) => Some(a.clone()),
                    None => None,
                },
                active: *active,
                recipes: match recipes {
                    Some(v) => Some(clone_string_vec(v)),
                    None => None,
                },
            },
        }
    }
}

impl CommandConfig {
    /// The command text.
    pub fn as_str(&self) -> (r: &str)
        ensures
            r@ == spec_command(self@),
    {
        match self {
            CommandConfig::Simple(s) => s.as_str(),
            CommandConfig::Detailed { command, .. } => command.as_str(),
        }
    }

    /// The alias, if one is configured.
    pub fn alias(&self) -> (r: Option<&str>)
        ensures
            match r {
                Some(a) => spec_alias(self@) == Some(a@),
                None => spec_alias(self@) is None,
            },
    {
        match self {
            CommandConfig::Simple(_) => None,
            CommandConfig::Detailed { alias, .. } => {
                match alias {
                    Some(a) => Some(a.as_str()),
                    None => None,
                }
            },
        }
    }

    /// Whether the command is marked active-by-default.
    pub fn is_active(&self) -> (r: bool)
        ensures
            r == spec_active(self@),
    {
        match self {
            CommandConfig::Simple(_) => false,
            CommandConfig::Detailed { active, .. } => {
                match active {
                    Some(a) => *a,
                    None => false,
                }
            },
        }
    }

    /// Whether `other` names this command, by text or by alias.
    pub fn matches(&self, other: &str) -> (r: bool)
        ensures
            r == spec_matches(self@, other@),
    {
        if str_eq(self.as_str(), other) {
            return true;
        }
        match self.alias() {
            Some(a) => str_eq(a, other),
            None => false,
        }
    }

    /// The recipe tags, copied out.
    pub fn recipes(&self) -> (r: Vec<String>)
        ensures
            str_views(r@) == spec_recipes(self@),
    {
        let r = match self {
            CommandConfig::Simple(_) => Vec::new(),
            CommandConfig::Detailed { recipes, .. } => {
                match recipes {
                    Some(v) => clone_string_vec(v),
                    None => Vec::new(),
                }
            },
        };
        proof {
            if str_views(r@).len() == 0 {
                assert(str_views(r@) =~= Seq::<Seq<char>>::empty());
            }
        }
        r
    }

    /// Whether the command is tagged with `recipe` (ASCII-case-insensitive,
    /// surrounding whitespace of `recipe` ignored).
    pub fn contains_recipe(&self, recipe: &str) -> (r: bool)
        ensures
            r == spec_contains_recipe(self@, recipe@),
    {
        let trimmed = trim_text(recipe);
        match self {
            CommandConfig::Simple(_) => false,
            CommandConfig::Detailed { recipes, .. } => {
                match recipes {
                    Some(list) => {
                        let mut k: usize = 0;
                        while k < list.len()
                            invariant
                                k <= list@.len(),
                                spec_recipes(self@) == str_views(list@),
                                trimmed@ == trim_unicode_spaces(recipe@),
                                forall|j: int|
                                    0 <= j < k ==> !eq_ignore_ascii_case_bytes(
                                        vstd::utf8::encode_utf8(
                                            #[trigger] spec_recipes(self@)[j],
                                        ),
                                        vstd::utf8::encode_utf8(trim_unicode_spaces(recipe@)),
                                    ),
                            decreases list@.len() - k,
                        {
                            if bytes_eq_ignore_ascii_case(
                                list[k].as_str().as_bytes(),
                                trimmed.as_str().as_bytes(),
                            ) {
                                proof {
                                    assert(eq_ignore_ascii_case_bytes(
                                        vstd::utf8::encode_utf8(spec_recipes(self@)[k as int]),
                                        vstd::utf8::encode_utf8(trim_unicode_spaces(recipe@)),
                                    ));
                                }
                                return true;
                            }
                            k += 1;
                        }
                        false
                    },
                    None => false,
                }
            },
        }
    }
}

/// Names one configured command, either by position or by alias (falling
/// back to command text).
pub enum CommandIndex {
    Simple(usize),
    Alias(String),
}

/// The mathematical value of a `CommandIndex`.
pub enum CommandIndexView {
    Simple(usize),
    Alias(Seq<char>),
}

impl View for CommandIndex {
    type V = CommandIndexView;

    open spec fn view(&self) -> CommandIndexView {
        match self {
            CommandIndex::Simple(i) => CommandIndexView::Simple(*i),
            CommandIndex::Alias(a) => CommandIndexView::Alias(a@),
        }
    }
}

impl Clone for CommandIndex {
    fn clone(&self) -> (r: Self)
        ensures
            r@ == self@,
    {
        match self {
            CommandIndex::Simple(i) => CommandIndex::Simple(*i),
            CommandIndex::Alias(a) => CommandIndex::Alias(a.clone()),
        }
    }
}

/// The first index whose command is aliased `a`, if any.
pub open spec fn alias_index(cmds: Seq<CommandConfigView>, a: Seq<char>) -> Option<int>
    decreases cmds.len(),
{
    if cmds.len() == 0 {
        None
    } else if spec_alias(cmds[0]) == Some(a) {
        Some(0)
    } else {
        match alias_index(cmds.drop_first(), a) {
            Some(i) => Some(i + 1),
            None => None,
        }
    }
}

/// The first index whose command text is `a`, if any.
pub open spec fn command_index(cmds: Seq<CommandConfigView>, a: Seq<char>) -> Option<int>
    decreases cmds.len(),
{
    if cmds.len() == 0 {
        None
    } else if spec_command(cmds[0]) == a {
        Some(0)
    } else {
        match command_index(cmds.drop_first(), a) {
            Some(i) => Some(i + 1),
            None => None,
        }
    }
}

/// The first index that `text` names, by command text or alias, if any.
pub open spec fn match_index(cmds: Seq<CommandConfigView>, text: Seq<char>) -> Option<int>
    decreases cmds.len(),
{
    if cmds.len() == 0 {
        None
    } else if spec_matches(cmds[0], text) {
        Some(0)
    } else {
        match match_index(cmds.drop_first(), text) {
            Some(i) => Some(i + 1),
            None => None,
        }
    }
}

/// A scan that rejects every alias before `i` and accepts at `i` (or runs off
/// the end) computes `alias_index`.
proof fn lemma_alias_index(cmds: Seq<CommandConfigView>, a: Seq<char>, i: int)
    requires
        0 <= i <= cmds.len(),
        forall|j: int| 0 <= j < i ==> spec_alias(#[trigger] cmds[j]) != Some(a),
        i < cmds.len() ==> spec_alias(cmds[i]) == Some(a),
    ensures
        alias_index(cmds, a) == if i < cmds.len() {
            Some(i)
        } else {
            None::<int>
        },
    decreases cmds.len(),
{
    if cmds.len() > 0 && i > 0 {
        lemma_alias_index(cmds.drop_first(), a, i - 1);
        assert(forall|j: int| 0 <= j < i - 1 ==> cmds.drop_first()[j] == #[trigger] cmds[j + 1]);
    }
}

/// The same scan argument for `command_index`.
proof fn lemma_command_index(cmds: Seq<CommandConfigView>, a: Seq<char>, i: int)
    requires
        0 <= i <= cmds.len(),
        forall|j: int| 0 <= j < i ==> spec_command(#[trigger] cmds[j]) != a,
        i < cmds.len() ==> spec_command(cmds[i]) == a,
    ensures
        command_index(cmds, a) == if i < cmds.len() {
            Some(i)
        } else {
            None::<int>
        },
    decreases cmds.len(),
{
    if cmds.len() > 0 && i > 0 {
        lemma_command_index(cmds.drop_first(), a, i - 1);
        assert(forall|j: int| 0 <= j < i - 1 ==> cmds.drop_first()[j] == #[trigger] cmds[j + 1]);
    }
}

/// The same scan argument for `match_index`.
proof fn lemma_match_index(cmds: Seq<CommandConfigView>, text: Seq<char>, i: int)
    requires
        0 <= i <= cmds.len(),
        forall|j: int| 0 <= j < i ==> !spec_matches(#[trigger] cmds[j], text),
        i < cmds.len() ==> spec_matches(cmds[i], text),
    ensures
        match_index(cmds, text) == if i < cmds.len() {
            Some(i)
        } else {
            None::<int>
        },
    decreases cmds.len(),
{
    if cmds.len() > 0 && i > 0 {
        lemma_match_index(cmds.drop_first(), text, i - 1);
        assert(forall|j: int| 0 <= j < i - 1 ==> cmds.drop_first()[j] == #[trigger] cmds[j + 1]);
    }
}

/// Which command a `CommandIndex` picks: a position directly; an alias by the
/// first alias match, else the first command-text match.
pub open spec fn spec_retrieve(cmds: Seq<CommandConfigView>, idx: CommandIndexView) -> Option<
    int,
> {
    match idx {
        CommandIndexView::Simple(i) => {
            if i < cmds.len() {
                Some(i as int)
            } else {
                None
            }
        },
        CommandIndexView::Alias(a) => {
            match alias_index(cmds, a) {
                Some(k) => Some(k),
                None => command_index(cmds, a),
            }
        },
    }
}

impl CommandIndex {
    /// The command this index picks out of `commands`, if any.
    pub fn retrieve<'a>(&self, commands: &'a [CommandConfig]) -> (r: Option<&'a CommandConfig>)
        ensures
            match r {
                Some(c) => {
                    &&& spec_retrieve(cmd_views(commands@), self@) matches Some(k)
                    &&& 0 <= spec_retrieve(cmd_views(commands@), self@)->0 < commands@.len()
                    &&& c@ == cmd_views(commands@)[spec_retrieve(cmd_views(commands@), self@)->0]
                },
                None => spec_retrieve(cmd_views(commands@), self@) is None,
            },
    {
        let ghost views = cmd_views(commands@);
        match self {
            CommandIndex::Simple(i) => {
                if *i < commands.len() {
                    Some(&commands[*i])
                } else {
                    None
                }
            },
            CommandIndex::Alias(alias) => {
                let mut k: usize = 0;
                while k < commands.len()
                    invariant
                        k <= commands@.len(),
                        views == cmd_views(commands@),
                        self@ == CommandIndexView::Alias(alias@),
                        forall|j: int|
                            0 <= j < k ==> spec_alias(#[trigger] views[j]) != Some(alias@),
                    decreases commands@.len() - k,
                {
                    let is_match = match commands[k].alias() {
                        Some(a) => str_eq(a, alias.as_str()),
                        None => false,
                    };
                    if is_match {
                        proof {
                            assert(spec_alias(views[k as int]) == Some(alias@));
                            lemma_alias_index(views, alias@, k as int);
                        }
                        return Some(&commands[k]);
                    }
                    proof {
                        assert(spec_alias(views[k as int]) != Some(alias@));
                    }
                    k += 1;
                }
                proof {
                    lemma_alias_index(views, alias@, views.len() as int);
                }
                let mut k: usize = 0;
                while k < commands.len()
                    invariant
                        k <= commands@.len(),
                        views == cmd_views(commands@),
                        self@ == CommandIndexView::Alias(alias@),
                        alias_index(views, alias@) is None,
                        forall|j: int| 0 <= j < k ==> spec_command(#[trigger] views[j]) != alias@,
                    decreases commands@.len() - k,
                {
                    if str_eq(commands[k].as_str(), alias.as_str()) {
                        proof {
                            assert(spec_command(views[k as int]) == alias@);
                            lemma_command_index(views, alias@, k as int);
                        }
                        return Some(&commands[k]);
                    }
                    proof {
                        assert(spec_command(views[k as int]) != alias@);
                    }
                    k += 1;
                }
                proof {
                    lemma_command_index(views, alias@, views.len() as int);
                }
                None
            },
        }
    }
}

/// The start options kept in a configuration file.
pub struct ConfigFileStartOptions {
    pub commands: Vec<CommandConfig>,
    pub all: bool,
    pub exit_on_error: bool,
    pub quit_on_completion: bool,
    pub quiet_startup: bool,
    pub raw: bool,
    pub init_only: bool,
    pub no_init: bool,
}

/// The default of the `raw` field when a configuration file leaves it out.
pub fn true_value() -> (r: bool)
    ensures
        r == true,
{
    true
}

/// The command texts of a command list, in order.
pub open spec fn texts_of(cmds: Seq<CommandConfigView>) -> Seq<Seq<char>> {
    cmds.map_values(|c: CommandConfigView| spec_command(c))
}

impl ConfigFileStartOptions {
    /// The texts of every configured command, in order.
    pub fn as_commands(&self) -> (r: Vec<String>)
        ensures
            str_views(r@) == texts_of(cmd_views(self.commands@)),
    {
        let mut r: Vec<String> = Vec::new();
        let mut i: usize = 0;
        while i < self.commands.len()
            invariant
                i <= self.commands@.len(),
                r@.len() == i,
                forall|j: int|
                    0 <= j < i ==> str_views(r@)[j] == texts_of(cmd_views(self.commands@))[j],
            decreases self.commands@.len() - i,
        {
            let ghost before = r@;
            let text = self.commands[i].as_str().to_owned();
            r.push(text);
            proof {
                assert(str_views(r@) =~= str_views(before).push(r@.last()@));
            }
            i += 1;
        }
        proof {
            assert(str_views(r@) =~= texts_of(cmd_views(self.commands@)));
        }
        r
    }
}

/// A saved session: the start options, plus which commands were running and
/// which are startup steps, and the version that wrote the file.
pub struct TogetherConfigFile {
    pub start_options: ConfigFileStartOptions,
    pub running: Option<Vec<CommandIndex>>,
    pub startup: Option<Vec<CommandIndex>>,
    pub version: Option<String>,
}

/// The values of a sequence of command indices.
pub open spec fn idx_views(s: Seq<CommandIndex>) -> Seq<CommandIndexView> {
    s.map_values(|i: CommandIndex| i@)
}

/// The commands a sequence of indices picks, in order, unresolvable entries
/// skipped.
pub open spec fn retrieved_seq(
    cmds: Seq<CommandConfigView>,
    idxs: Seq<CommandIndexView>,
) -> Seq<CommandConfigView>
    decreases idxs.len(),
{
    if idxs.len() == 0 {
        Seq::empty()
    } else {
        retrieved_seq(cmds, idxs.drop_last()) + match spec_retrieve(cmds, idxs.last()) {
            Some(k) => seq![cmds[k]],
            None => Seq::empty(),
        }
    }
}

/// The commands marked active-by-default, in order.
pub open spec fn actives_of(cmds: Seq<CommandConfigView>) -> Seq<CommandConfigView>
    decreases cmds.len(),
{
    if cmds.len() == 0 {
        Seq::empty()
    } else {
        actives_of(cmds.drop_last()) + if spec_active(cmds.last()) {
            seq![cmds.last()]
        } else {
            Seq::empty()
        }
    }
}

/// Keeps the first occurrence of every element, in order.
pub open spec fn dedup_keep_first<A>(s: Seq<A>) -> Seq<A>
    decreases s.len(),
{
    if s.len() == 0 {
        Seq::empty()
    } else {
        let d = dedup_keep_first(s.drop_last());
        if d.contains(s.last()) {
            d
        } else {
            d.push(s.last())
        }
    }
}

/// What `running_commands` reports: the remembered running set, then every
/// active-by-default command, duplicates dropped; nothing when that list is
/// empty.
pub open spec fn spec_running_commands(cfg: TogetherConfigFile) -> Option<Seq<Seq<char>>> {
    let cmds = cmd_views(cfg.start_options.commands@);
    let picked = match cfg.running {
        Some(idxs) => retrieved_seq(cmds, idx_views(idxs@)),
        None => Seq::empty(),
    };
    let kept = dedup_keep_first(picked + actives_of(cmds));
    if kept.len() == 0 {
        None
    } else {
        Some(texts_of(kept))
    }
}

fn contains_command(acc: &Vec<CommandConfig>, c: &CommandConfig) -> (r: bool)
    ensures
        r == cmd_views(acc@).contains(c@),
{
    let mut i: usize = 0;
    while i < acc.len()
        invariant
            i <= acc@.len(),
            forall|j: int| 0 <= j < i ==> cmd_views(acc@)[j] != c@,
        decreases acc@.len() - i,
    {
        if &acc[i] == c {
            proof {
                assert(cmd_views(acc@)[i as int] == c@);
            }
            return true;
        }
        proof {
            assert(cmd_views(acc@)[i as int] != c@);
        }
        i += 1;
    }
    proof {
        assert(forall|j: int| 0 <= j < acc@.len() ==> cmd_views(acc@)[j] != c@);
    }
    false
}

/// The position of the first configured command that `target` names.
fn find_matching_index(commands: &Vec<CommandConfig>, target: &str) -> (r: Option<usize>)
    ensures
        match r {
            Some(k) => match_index(cmd_views(commands@), target@) == Some(k as int),
            None => match_index(cmd_views(commands@), target@) is None,
        },
{
    let ghost views = cmd_views(commands@);
    let mut k: usize = 0;
    while k < commands.len()
        invariant
            k <= commands@.len(),
            views == cmd_views(commands@),
            forall|t: int| 0 <= t < k ==> !spec_matches(#[trigger] views[t], target@),
        decreases commands@.len() - k,
    {
        if commands[k].matches(target) {
            proof {
                assert(spec_matches(views[k as int], target@));
                lemma_match_index(views, target@, k as int);
            }
            return Some(k);
        }
        proof {
            assert(!spec_matches(views[k as int], target@));
        }
        k += 1;
    }
    proof {
        lemma_match_index(views, target@, views.len() as int);
    }
    None
}

impl TogetherConfigFile {
    /// A fresh configuration around the given start options.
    pub fn new(start_options: ConfigFileStartOptions) -> (r: Self)
        ensures
            r.running is None,
            r.startup is None,
            r.version is Some,
            cmd_views(r.start_options.commands@) == cmd_views(start_options.commands@),
    {
        TogetherConfigFile {
            start_options,
            running: None,
            startup: None,
            version: Some("0.1.0".to_owned()),
        }
    }

    /// Remembers `running` as the set of running commands, each stored as the
    /// position of the first configured command it names.
    pub fn with_running(self, running: &Vec<String>) -> (r: Self)
        requires
            forall|j: int|
                0 <= j < running@.len() ==> match_index(
                    cmd_views(self.start_options.commands@),
                    #[trigger] str_views(running@)[j],
                ) is Some,
        ensures
            cmd_views(r.start_options.commands@) == cmd_views(self.start_options.commands@),
            r.running matches Some(v) && idx_views(v@).len() == running@.len(),
            forall|j: int|
                0 <= j < running@.len() ==> (exists|k: usize|
                    #[trigger] idx_views((r.running->0)@)[j] == CommandIndexView::Simple(k)
                        && match_index(
                        cmd_views(self.start_options.commands@),
                        str_views(running@)[j],
                    ) == Some(k as int)),
    {
        let ghost views = cmd_views(self.start_options.commands@);
        let mut indices: Vec<CommandIndex> = Vec::new();
        let mut j: usize = 0;
        while j < running.len()
            invariant
                j <= running@.len(),
                views == cmd_views(self.start_options.commands@),
                indices@.len() == j,
                forall|t: int|
                    0 <= t < running@.len() ==> match_index(
                        views,
                        #[trigger] str_views(running@)[t],
                    ) is Some,
                forall|t: int|
                    0 <= t < j ==> (exists|k: usize|
                        #[trigger] idx_views(indices@)[t] == CommandIndexView::Simple(k)
                            && match_index(views, str_views(running@)[t]) == Some(k as int)),
            decreases running@.len() - j,
        {
            let target: &String = &running[j];
            proof {
                assert(target@ == str_views(running@)[j as int]);
            }
            match find_matching_index(&self.start_options.commands, target.as_str()) {
                Some(k) => {
                    let ghost before = indices@;
                    indices.push(CommandIndex::Simple(k));
                    proof {
                        assert(idx_views(indices@) =~= idx_views(before).push(
                            CommandIndexView::Simple(k),
                        ));
                        assert(idx_views(indices@)[j as int] == CommandIndexView::Simple(k));
                    }
                },
                None => {
                    proof {
                        assert(match_index(views, str_views(running@)[j as int]) is Some);
                        assert(false);
                    }
                },
            }
            j += 1;
        }
        let r = TogetherConfigFile { running: Some(indices), ..self };
        r
    }

    /// The commands this configuration says should run: the remembered
    /// running set, then every active-by-default command, without duplicates.
    /// Nothing is reported when that list comes out empty.
    pub fn running_commands(&self) -> (r: Option<Vec<String>>)
        ensures
            match r {
                Some(v) => spec_running_commands(*self) == Some(str_views(v@)),
                None => spec_running_commands(*self) is None,
            },
    {
        let ghost cmds = cmd_views(self.start_options.commands@);
        let mut acc: Vec<CommandConfig> = Vec::new();
        let ghost mut candidates: Seq<CommandConfigView> = Seq::empty();
        proof {
            assert(cmd_views(acc@) =~= dedup_keep_first(candidates));
        }
        match &self.running {
            Some(idxs) => {
                let mut t: usize = 0;
                while t < idxs.len()
                    invariant
                        t <= idxs@.len(),
                        cmds == cmd_views(self.start_options.commands@),
                        cmd_views(acc@) == dedup_keep_first(candidates),
                        candidates == retrieved_seq(cmds, idx_views(idxs@).take(t as int)),
                    decreases idxs@.len() - t,
                {
                    let ghost cand_before = candidates;
                    match idxs[t].retrieve(self.start_options.commands.as_slice()) {
                        Some(c) => {
                            proof {
                                candidates = candidates.push(c@);
                                assert(idx_views(idxs@).take(t + 1).drop_last() =~= idx_views(
                                    idxs@,
                                ).take(t as int));
                                assert(idx_views(idxs@).take(t + 1).last() == idx_views(idxs@)[
                                    t as int]);
                                assert(candidates =~= retrieved_seq(
                                    cmds,
                                    idx_views(idxs@).take(t + 1),
                                ));
                            }
                            if !contains_command(&acc, c) {
                                let ghost acc_before = acc@;
                                acc.push(c.clone());
                                proof {
                                    assert(cmd_views(acc@) =~= cmd_views(acc_before).push(c@));
                                }
                            }
                            proof {
                                assert(candidates.drop_last() =~= cand_before);
                                assert(cmd_views(acc@) =~= dedup_keep_first(candidates));
                            }
                        },
                        None => {
                            proof {
                                assert(idx_views(idxs@).take(t + 1).drop_last() =~= idx_views(
                                    idxs@,
                                ).take(t as int));
                                assert(candidates =~= retrieved_seq(
                                    cmds,
                                    idx_views(idxs@).take(t + 1),
                                ));
                            }
                        },
                    }
                    t += 1;
                }
                proof {
                    assert(idx_views(idxs@).take(idx_views(idxs@).len() as int) =~= idx_views(
                        idxs@,
                    ));
                }
            },
            None => {
            },
        }
        let ghost picked = candidates;
        let mut i: usize = 0;
        while i < self.start_options.commands.len()
            invariant
                i <= self.start_options.commands@.len(),
                cmds == cmd_views(self.start_options.commands@),
                cmd_views(acc@) == dedup_keep_first(candidates),
                candidates == picked + actives_of(cmds.take(i as int)),
            decreases self.start_options.commands@.len() - i,
        {
            let ghost cand_before = candidates;
            let c = &self.start_options.commands[i];
            if c.is_active() {
                proof {
                    candidates = candidates.push(c@);
                    assert(cmds.take(i + 1).drop_last() =~= cmds.take(i as int));
                    assert(candidates =~= picked + actives_of(cmds.take(i + 1)));
                }
                if !contains_command(&acc, c) {
                    let ghost acc_before = acc@;
                    acc.push(c.clone());
                    proof {
                        assert(cmd_views(acc@) =~= cmd_views(acc_before).push(c@));
                    }
                }
                proof {
                    assert(candidates.drop_last() =~= cand_before);
                    assert(cmd_views(acc@) =~= dedup_keep_first(candidates));
                }
            } else {
                proof {
                    assert(cmds.take(i + 1).drop_last() =~= cmds.take(i as int));
                    assert(candidates =~= picked + actives_of(cmds.take(i + 1)));
                }
            }
            i += 1;
        }
        proof {
            assert(cmds.take(cmds.len() as int) =~= cmds);
        }
        if acc.len() == 0 {
            proof {
                assert(dedup_keep_first(candidates).len() == 0);
            }
            return None;
        }
        let mut out: Vec<String> = Vec::new();
        let mut i: usize = 0;
        while i < acc.len()
            invariant
                i <= acc@.len(),
                out@.len() == i,
                cmd_views(acc@) == dedup_keep_first(candidates),
                forall|j: int|
                    0 <= j < i ==> str_views(out@)[j] == texts_of(cmd_views(acc@))[j],
            decreases acc@.len() - i,
        {
            let ghost before = out@;
            let text = acc[i].as_str().to_owned();
            out.push(text);
            proof {
                assert(str_views(out@) =~= str_views(before).push(out@.last()@));
            }
            i += 1;
        }
        proof {
            assert(str_views(out@) =~= texts_of(dedup_keep_first(candidates)));
        }
        Some(out)
    }
}

/// The command texts a list of indices resolves to, in order, entries that
/// resolve to nothing skipped.
pub open spec fn spec_get_running_commands(
    cmds: Seq<CommandConfigView>,
    idxs: Seq<CommandIndexView>,
) -> Seq<Seq<char>> {
    texts_of(retrieved_seq(cmds, idxs))
}

/// Resolves `running` against the configured commands and reports their
/// texts, in order; indices that resolve to nothing are skipped.
pub fn get_running_commands(config: &TogetherConfigFile, running: &[CommandIndex]) -> (r: Vec<
    String,
>)
    ensures
        str_views(r@) == spec_get_running_commands(
            cmd_views(config.start_options.commands@),
            idx_views(running@),
        ),
{
    let ghost cmds = cmd_views(config.start_options.commands@);
    let mut r: Vec<String> = Vec::new();
    let mut t: usize = 0;
    while t < running.len()
        invariant
            t <= running@.len(),
            cmds == cmd_views(config.start_options.commands@),
            str_views(r@) == texts_of(retrieved_seq(cmds, idx_views(running@).take(t as int))),
        decreases running@.len() - t,
    {
        proof {
            assert(idx_views(running@).take(t + 1).drop_last() =~= idx_views(running@).take(
                t as int,
            ));
            assert(idx_views(running@).take(t + 1).last() == idx_views(running@)[t as int]);
        }
        match running[t].retrieve(config.start_options.commands.as_slice()) {
            Some(c) => {
                let ghost before = r@;
                r.push(c.as_str().to_owned());
                proof {
                    assert(str_views(r@) =~= str_views(before).push(spec_command(c@)));
                    assert(texts_of(
                        retrieved_seq(cmds, idx_views(running@).take(t + 1)),
                    ) =~= texts_of(retrieved_seq(cmds, idx_views(running@).take(t as int))).push(
                        spec_command(c@),
                    ));
                }
            },
            None => {
                proof {
                    assert(texts_of(
                        retrieved_seq(cmds, idx_views(running@).take(t + 1)),
                    ) =~= texts_of(retrieved_seq(cmds, idx_views(running@).take(t as int))));
                }
            },
        }
        t += 1;
    }
    proof {
        assert(idx_views(running@).take(idx_views(running@).len() as int) =~= idx_views(
            running@,
        ));
    }
    r
}

/// Every recipe tag of every command, in order of appearance.
pub open spec fn all_recipes(cmds: Seq<CommandConfigView>) -> Seq<Seq<char>>
    decreases cmds.len(),
{
    if cmds.len() == 0 {
        Seq::empty()
    } else {
        all_recipes(cmds.drop_last()) + spec_recipes(cmds.last())
    }
}

fn contains_text(acc: &Vec<String>, t: &str) -> (r: bool)
    ensures
        r == str_views(acc@).contains(t@),
{
    let mut i: usize = 0;
    while i < acc.len()
        invariant
            i <= acc@.len(),
            forall|j: int| 0 <= j < i ==> str_views(acc@)[j] != t@,
        decreases acc@.len() - i,
    {
        if str_eq(acc[i].as_str(), t) {
            proof {
                assert(str_views(acc@)[i as int] == t@);
            }
            return true;
        }
        proof {
            assert(str_views(acc@)[i as int] != t@);
        }
        i += 1;
    }
    proof {
        assert(forall|j: int| 0 <= j < acc@.len() ==> str_views(acc@)[j] != t@);
    }
    false
}

/// The distinct recipe tags configured over all commands, each kept at its
/// first appearance.
pub fn get_unique_recipes(start_options: &ConfigFileStartOptions) -> (r: Vec<String>)
    ensures
        str_views(r@) == dedup_keep_first(all_recipes(cmd_views(start_options.commands@))),
{
    let ghost cmds = cmd_views(start_options.commands@);
    let mut acc: Vec<String> = Vec::new();
    let ghost mut candidates: Seq<Seq<char>> = Seq::empty();
    proof {
        assert(str_views(acc@) =~= dedup_keep_first(candidates));
    }
    let mut i: usize = 0;
    while i < start_options.commands.len()
        invariant
            i <= start_options.commands@.len(),
            cmds == cmd_views(start_options.commands@),
            str_views(acc@) == dedup_keep_first(candidates),
            candidates == all_recipes(cmds.take(i as int)),
        decreases start_options.commands@.len() - i,
    {
        let recipes = start_options.commands[i].recipes();
        let ghost target = candidates + spec_recipes(cmds[i as int]);
        let mut k: usize = 0;
        while k < recipes.len()
            invariant
                k <= recipes@.len(),
                str_views(recipes@) == spec_recipes(cmds[i as int]),
                0 <= i < cmds.len(),
                str_views(acc@) == dedup_keep_first(candidates),
                candidates == all_recipes(cmds.take(i as int)) + str_views(recipes@).take(
                    k as int,
                ),
            decreases recipes@.len() - k,
        {
            let ghost cand_before = candidates;
            let t = &recipes[k];
            proof {
                candidates = candidates.push(t@);
                assert(candidates.drop_last() =~= cand_before);
                assert(str_views(recipes@).take(k + 1).drop_last() =~= str_views(recipes@).take(
                    k as int,
                ));
                assert(candidates =~= all_recipes(cmds.take(i as int)) + str_views(recipes@).take(
                    k + 1,
                ));
            }
            if !contains_text(&acc, t.as_str()) {
                let ghost acc_before = acc@;
                acc.push(t.clone());
                proof {
                    assert(str_views(acc@) =~= str_views(acc_before).push(t@));
                }
            }
            proof {
                assert(str_views(acc@) =~= dedup_keep_first(candidates));
            }
            k += 1;
        }
        proof {
            assert(str_views(recipes@).take(str_views(recipes@).len() as int) =~= str_views(
                recipes@,
            ));
            assert(cmds.take(i + 1).drop_last() =~= cmds.take(i as int));
            assert(cmds.take(i + 1).last() == cmds[i as int]);
            assert(candidates =~= all_recipes(cmds.take(i + 1)));
        }
        i += 1;
    }
    proof {
        assert(cmds.take(cmds.len() as int) =~= cmds);
    }
    acc
}

/// Whether a command is tagged with any of `recipes`.
pub open spec fn spec_matches_any_recipe(v: CommandConfigView, recipes: Seq<Seq<char>>) -> bool {
    exists|j: int| 0 <= j < recipes.len() && spec_contains_recipe(v, #[trigger] recipes[j])
}

/// The texts of the commands tagged with any of `recipes`, in order.
pub open spec fn spec_commands_by_recipes(
    cmds: Seq<CommandConfigView>,
    recipes: Seq<Seq<char>>,
) -> Seq<Seq<char>>
    decreases cmds.len(),
{
    if cmds.len() == 0 {
        Seq::empty()
    } else {
        spec_commands_by_recipes(cmds.drop_last(), recipes) + if spec_matches_any_recipe(
            cmds.last(),
            recipes,
        ) {
            seq![spec_command(cmds.last())]
        } else {
            Seq::empty()
        }
    }
}

fn matches_any_recipe(c: &CommandConfig, recipes: &Vec<String>) -> (r: bool)
    ensures
        r == spec_matches_any_recipe(c@, str_views(recipes@)),
{
    let mut j: usize = 0;
    while j < recipes.len()
        invariant
            j <= recipes@.len(),
            forall|t: int|
                0 <= t < j ==> !spec_contains_recipe(c@, #[trigger] str_views(recipes@)[t]),
        decreases recipes@.len() - j,
    {
        if c.contains_recipe(recipes[j].as_str()) {
            proof {
                assert(spec_contains_recipe(c@, str_views(recipes@)[j as int]));
            }
            return true;
        }
        proof {
            assert(!spec_contains_recipe(c@, str_views(recipes@)[j as int]));
        }
        j += 1;
    }
    false
}

/// The commands tagged with any of the named recipes, in configuration
/// order, by text.
pub fn collect_commands_by_recipes(
    start_options: &ConfigFileStartOptions,
    recipes: &Vec<String>,
) -> (r: Vec<String>)
    ensures
        str_views(r@) == spec_commands_by_recipes(
            cmd_views(start_options.commands@),
            str_views(recipes@),
        ),
{
    let ghost cmds = cmd_views(start_options.commands@);
    let ghost recs = str_views(recipes@);
    let mut r: Vec<String> = Vec::new();
    let mut i: usize = 0;
    while i < start_options.commands.len()
        invariant
            i <= start_options.commands@.len(),
            cmds == cmd_views(start_options.commands@),
            recs == str_views(recipes@),
            str_views(r@) == spec_commands_by_recipes(cmds.take(i as int), recs),
        decreases start_options.commands@.len() - i,
    {
        let c = &start_options.commands[i];
        proof {
            assert(cmds.take(i + 1).drop_last() =~= cmds.take(i as int));
            assert(cmds.take(i + 1).last() == cmds[i as int]);
        }
        if matches_any_recipe(c, recipes) {
            let ghost before = r@;
            r.push(c.as_str().to_owned());
            proof {
                assert(str_views(r@) =~= str_views(before).push(spec_command(c@)));
                assert(str_views(r@) =~= spec_commands_by_recipes(cmds.take(i + 1), recs));
            }
        } else {
            proof {
                assert(str_views(r@) =~= spec_commands_by_recipes(cmds.take(i + 1), recs));
            }
        }
        i += 1;
    }
    proof {
        assert(cmds.take(cmds.len() as int) =~= cmds);
    }
    r
}

/// The compatibility verdict over the version a configuration file was
/// written by, compared with the running program's version.
pub enum VersionCheck {
    /// The file records no version at all.
    Missing,
    /// The recorded version could not be parsed.
    Unparseable,
    /// The file was written by a newer major version: refuse it.
    ConfigNewerMajor,
    /// The file was written by a newer minor version: usable with a warning.
    ConfigNewerMinor,
    /// The file is fully usable.
    Compatible,
}

/// The version rule: a missing or unparseable version is rejected outright; a
/// file from a newer major version is refused; a newer minor version only
/// warns; everything else is compatible.
pub open spec fn spec_version_verdict(
    current: (u64, u64),
    config: Option<(u64, u64)>,
) -> VersionCheck {
    match config {
        None => VersionCheck::Missing,
        Some(v) => {
            if current.0 < v.0 {
                VersionCheck::ConfigNewerMajor
            } else if current.1 < v.1 {
                VersionCheck::ConfigNewerMinor
            } else {
                VersionCheck::Compatible
            }
        },
    }
}

/// Compares parsed `(major, minor)` pairs by the version rule.
pub fn compare_versions(current: (u64, u64), config: Option<(u64, u64)>) -> (r: VersionCheck)
    ensures
        r == spec_version_verdict(current, config),
{
    match config {
        None => VersionCheck::Missing,
        Some(v) => {
            if current.0 < v.0 {
                VersionCheck::ConfigNewerMajor
            } else if current.1 < v.1 {
                VersionCheck::ConfigNewerMinor
            } else {
                VersionCheck::Compatible
            }
        },
    }
}

/// What semver makes of a version text: its major, minor and patch numbers,
/// or nothing when the text is no semantic version. A function of the text
/// alone.
pub uninterp spec fn semver_triple(text: Seq<char>) -> Option<(u64, u64, u64)>;

/// Relies on semver::Version::parse: the major, minor and patch numbers of a
/// semantic version string, or nothing when it does not parse.
#[verifier::external_body]
fn parse_version(text: &str) -> (r: Option<(u64, u64, u64)>)
    ensures
        r == semver_triple(text@),
{
    match semver::Version::parse(text) {
        Ok(v) => Some((v.major, v.minor, v.patch)),
        Err(_) => None,
    }
}

/// The whole version check: no recorded version is `Missing`, a text semver
/// rejects (on either side) is `Unparseable`, and two parsed versions are
/// ruled on by `spec_version_verdict` over their major and minor numbers.
pub open spec fn spec_version_check(recorded: Option<Seq<char>>, current: Seq<char>) -> VersionCheck {
    match recorded {
        None => VersionCheck::Missing,
        Some(text) => match (semver_triple(text), semver_triple(current)) {
            (None, _) => VersionCheck::Unparseable,
            (Some(_), None) => VersionCheck::Unparseable,
            (Some(rec), Some(cur)) => spec_version_verdict(
                (cur.0, cur.1),
                Some((rec.0, rec.1)),
            ),
        },
    }
}

/// Checks the version recorded in a configuration file against the running
/// version, exactly as `spec_version_check` rules.
pub fn check_version(config: &TogetherConfigFile, current_version: &str) -> (r: VersionCheck)
    ensures
        r == spec_version_check(opt_text_view(config.version), current_version@),
{
    let recorded = match &config.version {
        None => {
            return VersionCheck::Missing;
        },
        Some(v) => v,
    };
    let recorded = match parse_version(recorded.as_str()) {
        None => {
            return VersionCheck::Unparseable;
        },
        Some(v) => v,
    };
    let current = match parse_version(current_version) {
        None => {
            return VersionCheck::Unparseable;
        },
        Some(v) => v,
    };
    compare_versions((current.0, current.1), Some((recorded.0, recorded.1)))
}

} // verus!
