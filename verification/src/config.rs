//! Settings per kind of file: for a file name, for an extension, and a
//! default; the user's settings come before the built-in ones.
use vstd::prelude::*;

use crate::paths::{extension, extension_spec, file_name, file_name_spec};
use crate::snippets::SnippetMap;
use crate::buffer::Buffer;
use crate::edit_core::buffer::CoreBuffer;
use crate::strings::string_push;

verus! {

/// The chars of each string.
pub open spec fn words(v: Seq<String>) -> Seq<Seq<char>> {
    v.map_values(|s: String| s@)
}

/// Words separated by single spaces.
pub open spec fn joined(ws: Seq<Seq<char>>) -> Seq<char>
    decreases ws.len(),
{
    if ws.len() == 0 {
        Seq::empty()
    } else if ws.len() == 1 {
        ws[0]
    } else {
        joined(ws.drop_last()) + seq![' '] + ws.last()
    }
}

/// An outside program and its arguments.
pub struct Command {
    pub program: String,
    pub args: Vec<String>,
}

impl Command {
    /// The program, then the arguments.
    pub open spec fn words(&self) -> Seq<Seq<char>> {
        seq![self.program@] + words(self.args@)
    }

    /// The first word names the program, the others are its arguments;
    /// no words give no command.
    pub fn new(args: &[String]) -> (r: Option<Command>)
        ensures
            r is None <==> args@.len() == 0,
            r matches Some(c) ==> c.words() == words(args@),
    {
        if args.len() == 0 {
            return None;
        }
        let program = args[0].clone();
        let mut rest: Vec<String> = Vec::new();
        let mut i: usize = 1;
        while i < args.len()
            invariant
                1 <= i <= args@.len(),
                words(rest@) == words(args@).subrange(1, i as int),
            decreases args@.len() - i,
        {
            let ghost prev = rest@;
            let a = args[i].clone();
            assert(a@ == args@[i as int]@);
            rest.push(a);
            assert(rest@ == prev.push(a));
            assert(words(prev).len() == i - 1);
            assert(words(rest@).len() == i);
            assert(words(args@).len() == args@.len());
            assert(words(rest@)[i - 1] == args@[i as int]@);
            assert(words(rest@) =~= words(args@).subrange(1, i + 1));
            i += 1;
        }
        let c = Command { program, args: rest };
        assert(c.words() =~= words(args@));
        Some(c)
    }

    /// The command as it is shown: the program and its arguments,
    /// separated by spaces.
    pub fn to_line(&self) -> (s: String)
        ensures
            s@ == joined(self.words()),
    {
        let mut s = self.program.clone();
        let n = self.args.len();
        let mut i: usize = 0;
        assert(self.words().take(1) =~= seq![self.program@]);
        while i < n
            invariant
                n == self.args@.len(),
                i <= n,
                s@ == joined(self.words().take(i + 1)),
            decreases n - i,
        {
            let ghost before = s@;
            string_push(&mut s, ' ');
            s.append(self.args[i].as_str());
            assert(self.words().take(i + 2).drop_last() =~= self.words().take(i + 1));
            assert(self.words().take(i + 2).last() == self.args@[i as int]@);
            i += 1;
        }
        assert(self.words().take(n + 1) =~= self.words());
        s
    }
}

/// The kind of messages a compiler prints.
#[derive(Debug, Clone, Copy, PartialEq, Eq, Structural)]
pub enum CompilerType {
    Rustc,
    Gcc,
}

/// How to compile: the command, what to add for an optimized build, and
/// how to read the compiler's messages.
pub struct CompilerConfig {
    pub command: Vec<String>,
    pub optimize_option: Vec<String>,
    pub output_type: Option<CompilerType>,
}

/// The settings for one kind of file; any of them may be missing.
pub struct LanguageConfig {
    pub ansi_color: Option<bool>,
    pub snippets: Option<SnippetMap>,
    pub indent_width: Option<usize>,
    pub lsp: Option<Command>,
    pub formatter: Option<Command>,
    pub syntax_extension: Option<String>,
    pub compiler: Option<CompilerConfig>,
    pub test_command: Option<Command>,
    pub tabnine_command: Option<Command>,
    pub theme: Option<String>,
    pub hard_tab: Option<bool>,
}

impl LanguageConfig {
    /// Its snippets are kept in order.
    pub open spec fn wf(&self) -> bool {
        self.snippets matches Some(m) ==> m.wf()
    }
}

impl Default for LanguageConfig {
    fn default() -> (r: Self)
        ensures
            r.ansi_color is None,
            r.snippets is None,
            r.indent_width is None,
            r.lsp is None,
            r.formatter is None,
            r.syntax_extension is None,
            r.compiler is None,
            r.test_command is None,
            r.tabnine_command is None,
            r.theme is None,
            r.hard_tab is None,
    {
        LanguageConfig {
            ansi_color: None,
            snippets: None,
            indent_width: None,
            lsp: None,
            formatter: None,
            syntax_extension: None,
            compiler: None,
            test_command: None,
            tabnine_command: None,
            theme: None,
            hard_tab: None,
        }
    }
}

/// The text of prefix `q` after appending the snippet files in order: the
/// last file that has it wins.
pub open spec fn merged_get(files: Seq<SnippetMap>, q: Seq<char>) -> Option<Seq<char>>
    decreases files.len(),
{
    if files.len() == 0 {
        None
    } else {
        match files.last().get_spec(q) {
            Some(t) => Some(t),
            None => merged_get(files.drop_last(), q),
        }
    }
}

/// `c` is the command that the words `v` give, if any.
pub open spec fn command_of(v: Option<Vec<String>>, c: Option<Command>) -> bool {
    match v {
        Some(ws) => if ws@.len() == 0 {
            c is None
        } else {
            c matches Some(cmd) && cmd.words() == words(ws@)
        },
        None => c is None,
    }
}

/// What a settings file says for one kind of file.
pub struct LanguageConfigToml {
    pub ansi_color: Option<bool>,
    /// The snippet files to load.
    pub snippets: Option<Vec<String>>,
    pub indent_width: Option<usize>,
    pub lsp: Option<Vec<String>>,
    pub formatter: Option<Vec<String>>,
    pub syntax: Option<String>,
    pub compiler: Option<CompilerConfig>,
}

impl LanguageConfigToml {
    /// The settings, given the snippet files it names, loaded in order (a
    /// file that could not be loaded is left out): their snippets merged,
    /// a later file's taking the place of an earlier one's with the same
    /// prefix; commands made from their words.
    pub fn into_config(self, snippet_files: Vec<SnippetMap>) -> (c: LanguageConfig)
        requires
            forall|i: int| 0 <= i < snippet_files@.len() ==> (#[trigger] snippet_files@[i]).wf(),
        ensures
            c.wf(),
            c.ansi_color == self.ansi_color,
            c.snippets matches Some(m) && forall|q: Seq<char>| #[trigger]
                m.get_spec(q) == merged_get(snippet_files@, q),
            c.indent_width == self.indent_width,
            command_of(self.lsp, c.lsp),
            command_of(self.formatter, c.formatter),
            c.syntax_extension == self.syntax,
            c.compiler == self.compiler,
            c.test_command is None,
            c.tabnine_command is None,
            c.theme is None,
            c.hard_tab is None,
    {
        let mut snippets = SnippetMap::new();
        let n = snippet_files.len();
        let mut i: usize = 0;
        while i < n
            invariant
                n == snippet_files@.len(),
                i <= n,
                forall|k: int| 0 <= k < snippet_files@.len() ==> (#[trigger] snippet_files@[k]).wf(),
                snippets.wf(),
                forall|q: Seq<char>| #[trigger]
                    snippets.get_spec(q) == merged_get(snippet_files@.take(i as int), q),
            decreases n - i,
        {
            snippets.append(&snippet_files[i]);
            proof {
                assert(snippet_files@.take(i + 1).drop_last() =~= snippet_files@.take(i as int));
                assert(snippet_files@.take(i + 1).last() == snippet_files@[i as int]);
            }
            i += 1;
        }
        assert(snippet_files@.take(n as int) =~= snippet_files@);
        let lsp = match &self.lsp {
            Some(ws) => Command::new(ws.as_slice()),
            None => None,
        };
        let formatter = match &self.formatter {
            Some(ws) => Command::new(ws.as_slice()),
            None => None,
        };
        LanguageConfig {
            ansi_color: self.ansi_color,
            snippets: Some(snippets),
            indent_width: self.indent_width,
            lsp,
            formatter,
            syntax_extension: self.syntax,
            compiler: self.compiler,
            test_command: None,
            tabnine_command: None,
            theme: None,
            hard_tab: None,
        }
    }
}

/// A setting that a `LanguageConfig` may hold.
pub trait Key {
    type Value;

    /// The setting in `c`, if `c` has it.
    spec fn pick(c: LanguageConfig) -> Option<Self::Value>;

    /// A value that settings can hold.
    spec fn valid(v: Self::Value) -> bool;

    fn get(c: &LanguageConfig) -> (r: Option<&Self::Value>)
        ensures
            match r {
                Some(v) => Self::pick(*c) == Some(*v),
                None => Self::pick(*c) is None,
            },
    ;

    /// Gives `c` the setting `v`.
    fn set(c: &mut LanguageConfig, v: Self::Value)
        requires
            Self::valid(v),
        ensures
            Self::pick(*final(c)) == Some(v),
            old(c).wf() ==> final(c).wf(),
    ;
}

/// Colours of the terminal's own palette (not true colour).
pub struct ANSIColor;

/// The snippets.
pub struct Snippets;

/// Columns per indent level.
pub struct IndentWidth;

/// The language server to start.
pub struct LSP;

/// The formatter to run.
pub struct Formatter;

/// The extension whose syntax highlighting to use.
pub struct SyntaxExtension;

/// How to compile.
pub struct Compiler;

/// The command that runs a test.
pub struct TestCommand;

/// The TabNine completer to start.
pub struct TabNineCommand;

/// The colour theme.
pub struct Theme;

/// Indenting with tabs.
pub struct HardTab;

impl Key for ANSIColor {
    type Value = bool;

    open spec fn pick(c: LanguageConfig) -> Option<bool> {
        c.ansi_color
    }

    fn get(c: &LanguageConfig) -> (r: Option<&bool>) {
        c.ansi_color.as_ref()
    }

    open spec fn valid(v: bool) -> bool {
        true
    }

    fn set(c: &mut LanguageConfig, v: bool) {
        c.ansi_color = Some(v);
    }
}

impl Key for Snippets {
    type Value = SnippetMap;

    open spec fn pick(c: LanguageConfig) -> Option<SnippetMap> {
        c.snippets
    }

    fn get(c: &LanguageConfig) -> (r: Option<&SnippetMap>) {
        c.snippets.as_ref()
    }

    open spec fn valid(v: SnippetMap) -> bool {
        v.wf()
    }

    fn set(c: &mut LanguageConfig, v: SnippetMap) {
        c.snippets = Some(v);
    }
}

impl Key for IndentWidth {
    type Value = usize;

    open spec fn pick(c: LanguageConfig) -> Option<usize> {
        c.indent_width
    }

    fn get(c: &LanguageConfig) -> (r: Option<&usize>) {
        c.indent_width.as_ref()
    }

    open spec fn valid(v: usize) -> bool {
        true
    }

    fn set(c: &mut LanguageConfig, v: usize) {
        c.indent_width = Some(v);
    }
}

impl Key for LSP {
    type Value = Command;

    open spec fn pick(c: LanguageConfig) -> Option<Command> {
        c.lsp
    }

    fn get(c: &LanguageConfig) -> (r: Option<&Command>) {
        c.lsp.as_ref()
    }

    open spec fn valid(v: Command) -> bool {
        true
    }

    fn set(c: &mut LanguageConfig, v: Command) {
        c.lsp = Some(v);
    }
}

impl Key for Formatter {
    type Value = Command;

    open spec fn pick(c: LanguageConfig) -> Option<Command> {
        c.formatter
    }

    fn get(c: &LanguageConfig) -> (r: Option<&Command>) {
        c.formatter.as_ref()
    }

    open spec fn valid(v: Command) -> bool {
        true
    }

    fn set(c: &mut LanguageConfig, v: Command) {
        c.formatter = Some(v);
    }
}

impl Key for SyntaxExtension {
    type Value = String;

    open spec fn pick(c: LanguageConfig) -> Option<String> {
        c.syntax_extension
    }

    fn get(c: &LanguageConfig) -> (r: Option<&String>) {
        c.syntax_extension.as_ref()
    }

    open spec fn valid(v: String) -> bool {
        true
    }

    fn set(c: &mut LanguageConfig, v: String) {
        c.syntax_extension = Some(v);
    }
}

impl Key for Compiler {
    type Value = CompilerConfig;

    open spec fn pick(c: LanguageConfig) -> Option<CompilerConfig> {
        c.compiler
    }

    fn get(c: &LanguageConfig) -> (r: Option<&CompilerConfig>) {
        c.compiler.as_ref()
    }

    open spec fn valid(v: CompilerConfig) -> bool {
        true
    }

    fn set(c: &mut LanguageConfig, v: CompilerConfig) {
        c.compiler = Some(v);
    }
}

impl Key for TestCommand {
    type Value = Command;

    open spec fn pick(c: LanguageConfig) -> Option<Command> {
        c.test_command
    }

    fn get(c: &LanguageConfig) -> (r: Option<&Command>) {
        c.test_command.as_ref()
    }

    open spec fn valid(v: Command) -> bool {
        true
    }

    fn set(c: &mut LanguageConfig, v: Command) {
        c.test_command = Some(v);
    }
}

impl Key for TabNineCommand {
    type Value = Command;

    open spec fn pick(c: LanguageConfig) -> Option<Command> {
        c.tabnine_command
    }

    fn get(c: &LanguageConfig) -> (r: Option<&Command>) {
        c.tabnine_command.as_ref()
    }

    open spec fn valid(v: Command) -> bool {
        true
    }

    fn set(c: &mut LanguageConfig, v: Command) {
        c.tabnine_command = Some(v);
    }
}

impl Key for Theme {
    type Value = String;

    open spec fn pick(c: LanguageConfig) -> Option<String> {
        c.theme
    }

    fn get(c: &LanguageConfig) -> (r: Option<&String>) {
        c.theme.as_ref()
    }

    open spec fn valid(v: String) -> bool {
        true
    }

    fn set(c: &mut LanguageConfig, v: String) {
        c.theme = Some(v);
    }
}

impl Key for HardTab {
    type Value = bool;

    open spec fn pick(c: LanguageConfig) -> Option<bool> {
        c.hard_tab
    }

    fn get(c: &LanguageConfig) -> (r: Option<&bool>) {
        c.hard_tab.as_ref()
    }

    open spec fn valid(v: bool) -> bool {
        true
    }

    fn set(c: &mut LanguageConfig, v: bool) {
        c.hard_tab = Some(v);
    }
}

/// Where the first entry named `k` is.
pub open spec fn lookup(entries: Seq<(String, LanguageConfig)>, k: Seq<char>) -> Option<int>
    decreases entries.len(),
{
    if entries.len() == 0 {
        None
    } else if entries[0].0@ == k {
        Some(0)
    } else {
        match lookup(entries.drop_first(), k) {
            Some(i) => Some(i + 1),
            None => None,
        }
    }
}

/// The settings of the first entry named `k`.
pub open spec fn lookup_config(entries: Seq<(String, LanguageConfig)>, k: Seq<char>) -> Option<LanguageConfig> {
    match lookup(entries, k) {
        Some(i) => Some(entries[i].1),
        None => None,
    }
}

/// The snippet text of prefix `q` in the settings `c`, if any.
pub open spec fn snippet_of(c: Option<LanguageConfig>, q: Seq<char>) -> Option<Seq<char>> {
    match c {
        Some(cfg) => match cfg.snippets {
            Some(m) => m.get_spec(q),
            None => None,
        },
        None => None,
    }
}

/// Settings found in well-formed entries are well formed.
proof fn lemma_lookup_wf(entries: Seq<(String, LanguageConfig)>, c: LanguageConfig)
    requires
        forall|i: int| 0 <= i < entries.len() ==> (#[trigger] entries[i]).1.wf(),
        exists|k: Seq<char>| lookup_config(entries, k) == Some(c),
    ensures
        c.wf(),
{
    let k = choose|k: Seq<char>| lookup_config(entries, k) == Some(c);
    lemma_lookup_in(entries, k);
}

proof fn lemma_lookup_in(entries: Seq<(String, LanguageConfig)>, k: Seq<char>)
    ensures
        lookup(entries, k) matches Some(i) ==> 0 <= i < entries.len(),
    decreases entries.len(),
{
    if entries.len() > 0 && entries[0].0@ != k {
        lemma_lookup_in(entries.drop_first(), k);
        if let Some(i) = lookup(entries.drop_first(), k) {
            assert(entries.drop_first()[i] == entries[i + 1]);
        }
    }
}

/// Finds the settings of the first entry named `k`.
fn find<'a>(entries: &'a Vec<(String, LanguageConfig)>, k: &str) -> (r: Option<&'a LanguageConfig>)
    ensures
        match r {
            Some(c) => lookup_config(entries@, k@) == Some(*c),
            None => lookup_config(entries@, k@) is None,
        },
{
    let n = entries.len();
    let mut i: usize = 0;
    assert(entries@.skip(0) =~= entries@);
    while i < n
        invariant
            n == entries@.len(),
            i <= n,
            lookup(entries@, k@) == match lookup(entries@.skip(i as int), k@) {
                Some(j) => Some(j + i),
                None => None,
            },
        decreases n - i,
    {
        assert(entries@.skip(i as int)[0] == entries@[i as int]);
        assert(entries@.skip(i as int).drop_first() =~= entries@.skip(i + 1));
        if crate::snippets::compare_keys(entries[i].0.as_str(), k) == crate::snippets::KeyOrder::Equal {
            return Some(&entries[i].1);
        }
        i += 1;
    }
    None
}

/// Settings for file names, for extensions, and for every other file.
pub struct Config {
    /// By extension.
    pub file: Vec<(String, LanguageConfig)>,
    /// By file name.
    pub file_name: Vec<(String, LanguageConfig)>,
    pub file_default: Option<LanguageConfig>,
}

impl Config {
    /// The settings for the file at `path`: those for its file name, else
    /// those for its extension.
    pub open spec fn specific(&self, path: Seq<char>) -> Option<LanguageConfig> {
        let by_name = match file_name_spec(path) {
            Some(n) => lookup_config(self.file_name@, n),
            None => None,
        };
        match by_name {
            Some(c) => Some(c),
            None => match extension_spec(path) {
                Some(e) => lookup_config(self.file@, e),
                None => None,
            },
        }
    }

    /// A setting of the file at `path` (or of no file): from its own
    /// settings, else from the default ones.
    pub open spec fn get_spec<A: Key>(&self, path: Option<Seq<char>>) -> Option<A::Value> {
        let from_default = match self.file_default {
            Some(c) => A::pick(c),
            None => None,
        };
        match path {
            Some(p) => match self.specific(p) {
                Some(c) => match A::pick(c) {
                    Some(v) => Some(v),
                    None => from_default,
                },
                None => from_default,
            },
            None => from_default,
        }
    }

    /// No extension and no file name has settings twice (as in the map
    /// they are read from), and every snippet map it holds is in order.
    pub open spec fn wf(&self) -> bool {
        &&& forall|i: int, j: int|
            0 <= i < j < self.file@.len() ==> (#[trigger] self.file@[i]).0@ != (#[trigger] self.file@[j]).0@
        &&& forall|i: int, j: int|
            0 <= i < j < self.file_name@.len() ==> (#[trigger] self.file_name@[i]).0@ != (
            #[trigger] self.file_name@[j]).0@
        &&& forall|i: int| 0 <= i < self.file@.len() ==> (#[trigger] self.file@[i]).1.wf()
        &&& forall|i: int| 0 <= i < self.file_name@.len() ==> (#[trigger] self.file_name@[i]).1.wf()
        &&& self.file_default matches Some(c) ==> c.wf()
    }

    /// The snippet text of prefix `q` for the file at `path`: those of the
    /// default settings take the place of those for the extension, which
    /// take the place of those for the file name.
    pub open spec fn snippet_spec(&self, path: Option<Seq<char>>, q: Seq<char>) -> Option<Seq<char>> {
        let from_default = snippet_of(self.file_default, q);
        match path {
            Some(p) => {
                let by_name = match file_name_spec(p) {
                    Some(n) => lookup_config(self.file_name@, n),
                    None => None,
                };
                let by_ext = match extension_spec(p) {
                    Some(e) => lookup_config(self.file@, e),
                    None => None,
                };
                match from_default {
                    Some(t) => Some(t),
                    None => match snippet_of(by_ext, q) {
                        Some(t) => Some(t),
                        None => snippet_of(by_name, q),
                    },
                }
            },
            None => from_default,
        }
    }

    /// The snippets for the file at `path` (or for no file).
    pub fn snippets(&self, path: Option<&str>) -> (r: SnippetMap)
        requires
            self.wf(),
        ensures
            r.wf(),
            forall|q: Seq<char>| #[trigger] r.get_spec(q) == self.snippet_spec(opt_view(path), q),
    {
        let mut r = SnippetMap::new();
        if let Some(p) = path {
            let by_name = match file_name(p) {
                Some(n) => find(&self.file_name, n.as_str()),
                None => None,
            };
            if let Some(c) = by_name {
                proof {
                    lemma_lookup_wf(self.file_name@, *c);
                }
                if let Some(m) = &c.snippets {
                    r.append(m);
                }
            }
            let by_ext = match extension(p) {
                Some(e) => find(&self.file, e.as_str()),
                None => None,
            };
            if let Some(c) = by_ext {
                proof {
                    lemma_lookup_wf(self.file@, *c);
                }
                if let Some(m) = &c.snippets {
                    r.append(m);
                }
            }
        }
        if let Some(c) = &self.file_default {
            if let Some(m) = &c.snippets {
                r.append(m);
            }
        }
        r
    }

    fn specific_config(&self, path: &str) -> (r: Option<&LanguageConfig>)
        ensures
            match r {
                Some(c) => self.specific(path@) == Some(*c),
                None => self.specific(path@) is None,
            },
    {
        let by_name = match file_name(path) {
            Some(n) => find(&self.file_name, n.as_str()),
            None => None,
        };
        match by_name {
            Some(c) => Some(c),
            None => match extension(path) {
                Some(e) => find(&self.file, e.as_str()),
                None => None,
            },
        }
    }

    /// A setting of the file at `path` (or of no file).
    pub fn get<A: Key>(&self, path: Option<&str>) -> (r: Option<&A::Value>)
        ensures
            match r {
                Some(v) => self.get_spec::<A>(opt_view(path)) == Some(*v),
                None => self.get_spec::<A>(opt_view(path)) is None,
            },
    {
        let from_default = match &self.file_default {
            Some(c) => A::get(c),
            None => None,
        };
        match path {
            Some(p) => match self.specific_config(p) {
                Some(c) => match A::get(c) {
                    Some(v) => Some(v),
                    None => from_default,
                },
                None => from_default,
            },
            None => from_default,
        }
    }
}

/// The chars of the path, if there is one.
pub open spec fn opt_view(path: Option<&str>) -> Option<Seq<char>> {
    match path {
        Some(p) => Some(p@),
        None => None,
    }
}

/// The user's settings, and the built-in ones beneath them.
pub struct ConfigWithDefault {
    pub default: Config,
    pub config: Config,
}

impl ConfigWithDefault {
    /// A setting of the file at `path`: the user's, else the built-in one.
    pub open spec fn get_spec<A: Key>(&self, path: Option<Seq<char>>) -> Option<A::Value> {
        match self.config.get_spec::<A>(path) {
            Some(v) => Some(v),
            None => self.default.get_spec::<A>(path),
        }
    }

    pub fn get<A: Key>(&self, path: Option<&str>) -> (r: Option<&A::Value>)
        ensures
            match r {
                Some(v) => self.get_spec::<A>(opt_view(path)) == Some(*v),
                None => self.get_spec::<A>(opt_view(path)) is None,
            },
    {
        match self.config.get::<A>(path) {
            Some(v) => Some(v),
            None => self.default.get::<A>(path),
        }
    }

    /// The snippets for the file at `path`, from the user's settings only.
    pub fn snippets(&self, path: Option<&str>) -> (r: SnippetMap)
        requires
            self.config.wf(),
        ensures
            r.wf(),
            forall|q: Seq<char>| #[trigger] r.get_spec(q) == self.config.snippet_spec(opt_view(path), q),
    {
        self.config.snippets(path)
    }
}

impl Default for Config {
    fn default() -> (r: Self)
        ensures
            r.wf(),
            r.file@.len() == 0,
            r.file_name@.len() == 0,
            r.file_default is None,
    {
        Config { file: Vec::new(), file_name: Vec::new(), file_default: None }
    }
}

impl Default for ConfigWithDefault {
    /// No settings of the user's, and no built-in ones.
    fn default() -> (r: Self)
        ensures
            r.config.wf(),
            r.default.wf(),
            r.config.file@.len() == 0 && r.config.file_name@.len() == 0 && r.config.file_default is None,
            r.default.file@.len() == 0 && r.default.file_name@.len() == 0 && r.default.file_default is None,
    {
        ConfigWithDefault { default: Config::default(), config: Config::default() }
    }
}

impl ConfigWithDefault {
    /// Makes `v` the user's setting for every file that does not set it
    /// otherwise.
    pub fn set<A: Key>(&mut self, v: A::Value)
        requires
            old(self).config.wf(),
            A::valid(v),
        ensures
            final(self).config.wf(),
            final(self).default == old(self).default,
            final(self).config.file == old(self).config.file,
            final(self).config.file_name == old(self).config.file_name,
            final(self).config.file_default matches Some(c) && A::pick(c) == Some(v),
            final(self).get_spec::<A>(None) == Some(v),
    {
        match &mut self.config.file_default {
            Some(c) => {
                A::set(c, v);
            },
            None => {
                let mut c = LanguageConfig::default();
                A::set(&mut c, v);
                self.config.file_default = Some(c);
            },
        }
    }
}

/// The chars of the buffer's path, if it has one.
pub open spec fn path_view(path: Option<String>) -> Option<Seq<char>> {
    match path {
        Some(p) => Some(p@),
        None => None,
    }
}

impl<B: CoreBuffer> Buffer<B> {
    /// Takes the settings for the buffer's file: the indent width (4 when
    /// unset), tabs or spaces (spaces when unset), and the snippets.
    pub fn set_language(&mut self, config: &ConfigWithDefault)
        requires
            old(self).wf(),
            config.config.wf(),
            config.get_spec::<IndentWidth>(path_view(old(self).path)) != Some(0usize),
        ensures
            final(self).wf(),
            final(self).core == old(self).core,
            final(self).path == old(self).path,
            final(self).search == old(self).search,
            final(self).yank == old(self).yank,
            final(self).indent_width == match config.get_spec::<IndentWidth>(path_view(old(self).path)) {
                Some(w) => w,
                None => 4,
            },
            final(self).hard_tab == match config.get_spec::<HardTab>(path_view(old(self).path)) {
                Some(b) => b,
                None => false,
            },
            forall|q: Seq<char>| #[trigger]
                final(self).snippet.get_spec(q) == config.config.snippet_spec(path_view(old(self).path), q),
    {
        let path: Option<&str> = match &self.path {
            Some(p) => Some(p.as_str()),
            None => None,
        };
        assert(opt_view(path) == path_view(self.path));
        let w = match config.get::<IndentWidth>(path) {
            Some(w) => *w,
            None => 4,
        };
        let h = match config.get::<HardTab>(path) {
            Some(h) => *h,
            None => false,
        };
        let snippets = config.snippets(path);
        self.indent_width = w;
        self.hard_tab = h;
        self.snippet = snippets;
    }

    /// Which syntax highlighting the buffer's file gets: the one the
    /// settings name, else that of its extension, else that of its file
    /// name; none without a file.
    pub fn syntax_extension(&self, config: &ConfigWithDefault) -> (r: String)
        ensures
            r@ == match config.get_spec::<SyntaxExtension>(path_view(self.path)) {
                Some(e) => e@,
                None => match self.path {
                    Some(p) => match extension_spec(p@) {
                        Some(e) => e,
                        None => match file_name_spec(p@) {
                            Some(n) => n,
                            None => Seq::empty(),
                        },
                    },
                    None => Seq::empty(),
                },
            },
    {
        let path: Option<&str> = match &self.path {
            Some(p) => Some(p.as_str()),
            None => None,
        };
        assert(opt_view(path) == path_view(self.path));
        match config.get::<SyntaxExtension>(path) {
            Some(e) => e.clone(),
            None => match path {
                Some(p) => match extension(p) {
                    Some(e) => e,
                    None => match file_name(p) {
                        Some(n) => n,
                        None => String::new(),
                    },
                },
                None => String::new(),
            },
        }
    }

    /// An empty buffer with no file and the settings `config` gives for
    /// no file.
    pub fn with_config(config: &ConfigWithDefault) -> (r: Self)
        requires
            config.config.wf(),
            config.get_spec::<IndentWidth>(None) != Some(0usize),
        ensures
            r.wf(),
            r.core.text() == Seq::<char>::empty(),
            r.path is None,
            r.indent_width == match config.get_spec::<IndentWidth>(None) {
                Some(w) => w,
                None => 4,
            },
            r.hard_tab == match config.get_spec::<HardTab>(None) {
                Some(b) => b,
                None => false,
            },
    {
        let mut b = Buffer::new(4, false);
        b.set_language(config);
        b
    }
}

} // verus!
