//! The command-line interpreter: a left fold over the raw argument tokens.
//!
//! Every option is set only while it is still unset; a repeated or
//! conflicting token raises the usage flag instead of letting the last
//! occurrence win, so argument order never silently changes the outcome.
//! A flag whose value never arrives leaves the fold in an awaiting state,
//! which also signals usage.

use vstd::prelude::*;

verus! {

/// When to color console output.
#[derive(Clone, Copy, Debug, PartialEq, Eq, Structural)]
pub enum Color {
    Always,
    Auto,
    Never,
}

/// How much to print.
#[derive(Clone, Copy, Debug, PartialEq, Eq, Structural)]
pub enum Verbosity {
    Normal,
    Verbose,
    Quiet,
}

/// Where the interpreter stands in the token stream.
#[derive(Clone, Copy, Debug, PartialEq, Eq, Structural)]
pub enum OptionsBuilderState {
    Ready,
    Finished,
    AwaitingColor,
    AwaitingManifestPath,
}

/// The resolved options of one invocation.
pub struct Options {
    pub color: Color,
    pub verbosity: Verbosity,
    pub manifest_path: String,
    pub template_path: String,
}

/// The mathematical image of `Options`.
pub ghost struct OptionsModel {
    pub color: Color,
    pub verbosity: Verbosity,
    pub manifest_path: Seq<char>,
    pub template_path: Seq<char>,
}

impl View for Options {
    type V = OptionsModel;

    open spec fn view(&self) -> OptionsModel {
        OptionsModel {
            color: self.color,
            verbosity: self.verbosity,
            manifest_path: self.manifest_path@,
            template_path: self.template_path@,
        }
    }
}

/// The options with every field at its default.
pub open spec fn default_options() -> OptionsModel {
    OptionsModel {
        color: Color::Auto,
        verbosity: Verbosity::Normal,
        manifest_path: "Cargo.toml"@,
        template_path: "Cargo.yaml"@,
    }
}

/// Accumulates options token by token.
pub struct OptionsBuilder {
    state: OptionsBuilderState,
    show_usage: bool,
    color: Option<Color>,
    verbosity: Option<Verbosity>,
    manifest_path: Option<String>,
    template_path: Option<String>,
}

/// The mathematical image of `OptionsBuilder`.
pub ghost struct BuilderModel {
    pub state: OptionsBuilderState,
    pub show_usage: bool,
    pub color: Option<Color>,
    pub verbosity: Option<Verbosity>,
    pub manifest_path: Option<Seq<char>>,
    pub template_path: Option<Seq<char>>,
}

impl View for OptionsBuilder {
    type V = BuilderModel;

    closed spec fn view(&self) -> BuilderModel {
        BuilderModel {
            state: self.state,
            show_usage: self.show_usage,
            color: self.color,
            verbosity: self.verbosity,
            manifest_path: self.manifest_path.deep_view(),
            template_path: self.template_path.deep_view(),
        }
    }
}

/// The state a fresh builder starts from.
pub open spec fn init_builder() -> BuilderModel {
    BuilderModel {
        state: OptionsBuilderState::Ready,
        show_usage: false,
        color: None,
        verbosity: None,
        manifest_path: None,
        template_path: None,
    }
}

/// Sets the verbosity only while it is unset; a second verbosity token is a
/// usage error.
pub open spec fn with_verbosity(m: BuilderModel, v: Verbosity) -> BuilderModel {
    if m.verbosity is None {
        BuilderModel { verbosity: Some(v), ..m }
    } else {
        BuilderModel { show_usage: true, ..m }
    }
}

/// Sets the color only while it is unset.
pub open spec fn with_color(m: BuilderModel, c: Color) -> BuilderModel {
    if m.color is None {
        BuilderModel { color: Some(c), ..m }
    } else {
        BuilderModel { show_usage: true, ..m }
    }
}

/// One token taken in the ready state.
pub open spec fn step_ready(m: BuilderModel, arg: Seq<char>) -> BuilderModel {
    if arg == "-h"@ || arg == "--help"@ {
        BuilderModel { show_usage: true, ..m }
    } else if arg == "-v"@ || arg == "--verbose"@ {
        with_verbosity(m, Verbosity::Verbose)
    } else if arg == "-q"@ || arg == "--quiet"@ {
        with_verbosity(m, Verbosity::Quiet)
    } else if arg == "--manifest-path"@ {
        BuilderModel { state: OptionsBuilderState::AwaitingManifestPath, ..m }
    } else if arg == "--color"@ {
        BuilderModel { state: OptionsBuilderState::AwaitingColor, ..m }
    } else if m.template_path is None {
        // the one positional argument; nothing more is accepted after it
        BuilderModel { state: OptionsBuilderState::Finished, template_path: Some(arg), ..m }
    } else {
        BuilderModel { state: OptionsBuilderState::Finished, show_usage: true, ..m }
    }
}

/// One token taken as the value of `--color`: only the three exact words
/// count.
pub open spec fn step_color(m: BuilderModel, arg: Seq<char>) -> BuilderModel {
    let back = BuilderModel { state: OptionsBuilderState::Ready, ..m };
    if arg == "always"@ {
        with_color(back, Color::Always)
    } else if arg == "auto"@ {
        with_color(back, Color::Auto)
    } else if arg == "never"@ {
        with_color(back, Color::Never)
    } else {
        BuilderModel { show_usage: true, ..back }
    }
}

/// One token taken as the value of `--manifest-path`.
pub open spec fn step_manifest(m: BuilderModel, arg: Seq<char>) -> BuilderModel {
    let back = BuilderModel { state: OptionsBuilderState::Ready, ..m };
    if m.manifest_path is None {
        BuilderModel { manifest_path: Some(arg), ..back }
    } else {
        BuilderModel { show_usage: true, ..back }
    }
}

/// One token folded into the builder, whatever its state.
pub open spec fn arg_step(m: BuilderModel, arg: Seq<char>) -> BuilderModel {
    match m.state {
        OptionsBuilderState::Finished => BuilderModel { show_usage: true, ..m },
        OptionsBuilderState::Ready => step_ready(m, arg),
        OptionsBuilderState::AwaitingColor => step_color(m, arg),
        OptionsBuilderState::AwaitingManifestPath => step_manifest(m, arg),
    }
}

/// The whole token sequence folded from the initial state.
pub open spec fn interpret_args(args: Seq<Seq<char>>) -> BuilderModel {
    args.fold_left(init_builder(), |m: BuilderModel, a: Seq<char>| arg_step(m, a))
}

/// What finishing the fold yields: nothing when a usage error was seen or a
/// flag still awaits its value, else the options with every unset field
/// defaulted.
pub open spec fn build_result(m: BuilderModel) -> Option<OptionsModel> {
    if m.show_usage || m.state is AwaitingColor || m.state is AwaitingManifestPath {
        None
    } else {
        Some(
            OptionsModel {
                color: if m.color is Some {
                    m.color->0
                } else {
                    Color::Auto
                },
                verbosity: if m.verbosity is Some {
                    m.verbosity->0
                } else {
                    Verbosity::Normal
                },
                manifest_path: if m.manifest_path is Some {
                    m.manifest_path->0
                } else {
                    "Cargo.toml"@
                },
                template_path: if m.template_path is Some {
                    m.template_path->0
                } else {
                    "Cargo.yaml"@
                },
            },
        )
    }
}

/// Character-for-character string equality.
fn str_eq(a: &str, b: &str) -> (r: bool)
    ensures
        r == (a@ == b@),
{
    let an = a.unicode_len();
    let bn = b.unicode_len();
    if an != bn {
        return false;
    }
    let mut i: usize = 0;
    while i < an
        invariant
            i <= an,
            an == a@.len(),
            bn == b@.len(),
            an == bn,
            forall|k: int| 0 <= k < i ==> a@[k] == b@[k],
        decreases an - i,
    {
        let ca = a.get_char(i);
        let cb = b.get_char(i);
        if ca != cb {
            return false;
        }
        i = i + 1;
    }
    assert(a@ =~= b@);
    true
}

impl Options {
    /// The options with every field at its default.
    pub fn new() -> (r: Self)
        ensures
            r@ == default_options(),
    {
        Options {
            color: Color::Auto,
            verbosity: Verbosity::Normal,
            manifest_path: "Cargo.toml".to_owned(),
            template_path: "Cargo.yaml".to_owned(),
        }
    }

    /// Interprets a full argument sequence: every token folded in order, then
    /// the builder finished.
    pub fn from_args(args: Vec<String>) -> (r: Option<Options>)
        ensures
            r is Some <==> build_result(interpret_args(args.deep_view())) is Some,
            r matches Some(o) ==> Some(o@) == build_result(interpret_args(args.deep_view())),
    {
        let ghost all = args.deep_view();
        let mut builder = OptionsBuilder::new();
        let mut i: usize = 0;
        proof {
            assert(all.take(0) =~= Seq::<Seq<char>>::empty());
        }
        while i < args.len()
            invariant
                i <= args@.len(),
                all == args.deep_view(),
                all.len() == args@.len(),
                forall|k: int| 0 <= k < args@.len() ==> all[k] == args@[k]@,
                builder@ == interpret_args(all.take(i as int)),
            decreases args@.len() - i,
        {
            let arg = args[i].clone();
            builder.push_arg(arg);
            proof {
                lemma_interpret_args_step(all, i as int);
            }
            i = i + 1;
        }
        proof {
            assert(all.take(args@.len() as int) =~= all);
        }
        builder.build()
    }
}

impl OptionsBuilder {
    /// A builder with nothing set.
    pub fn new() -> (r: Self)
        ensures
            r@ == init_builder(),
    {
        OptionsBuilder {
            state: OptionsBuilderState::Ready,
            show_usage: false,
            color: None,
            verbosity: None,
            manifest_path: None,
            template_path: None,
        }
    }

    /// Finishes the fold.
    pub fn build(self) -> (r: Option<Options>)
        ensures
            r is Some <==> build_result(self@) is Some,
            r matches Some(o) ==> Some(o@) == build_result(self@),
    {
        if self.show_usage || self.state == OptionsBuilderState::AwaitingColor || self.state
            == OptionsBuilderState::AwaitingManifestPath {
            return None;
        }
        let mut opts = Options::new();
        if let Some(color) = self.color {
            opts.color = color;
        }
        if let Some(verbosity) = self.verbosity {
            opts.verbosity = verbosity;
        }
        if let Some(manifest_path) = self.manifest_path {
            opts.manifest_path = manifest_path;
        }
        if let Some(template_path) = self.template_path {
            opts.template_path = template_path;
        }
        Some(opts)
    }

    /// Folds one raw token into the builder.
    pub fn push_arg(&mut self, arg: String)
        ensures
            final(self)@ == arg_step(old(self)@, arg@),
    {
        match self.state {
            OptionsBuilderState::Finished => {
                self.show_usage = true;
            },
            OptionsBuilderState::Ready => self.push_new(arg),
            OptionsBuilderState::AwaitingColor => self.push_color(arg),
            OptionsBuilderState::AwaitingManifestPath => {
                self.state = OptionsBuilderState::Ready;
                if self.manifest_path.is_none() {
                    self.manifest_path = Some(arg);
                } else {
                    self.show_usage = true;
                }
            },
        }
    }

    /// One token in the ready state.
    fn push_new(&mut self, arg: String)
        requires
            old(self)@.state is Ready,
        ensures
            final(self)@ == step_ready(old(self)@, arg@),
    {
        if str_eq(arg.as_str(), "-h") || str_eq(arg.as_str(), "--help") {
            self.show_usage = true;
        } else if str_eq(arg.as_str(), "-v") || str_eq(arg.as_str(), "--verbose") {
            if self.verbosity.is_none() {
                self.verbosity = Some(Verbosity::Verbose);
            } else {
                self.show_usage = true;
            }
        } else if str_eq(arg.as_str(), "-q") || str_eq(arg.as_str(), "--quiet") {
            if self.verbosity.is_none() {
                self.verbosity = Some(Verbosity::Quiet);
            } else {
                self.show_usage = true;
            }
        } else if str_eq(arg.as_str(), "--manifest-path") {
            self.state = OptionsBuilderState::AwaitingManifestPath;
        } else if str_eq(arg.as_str(), "--color") {
            self.state = OptionsBuilderState::AwaitingColor;
        } else {
            if self.template_path.is_none() {
                self.template_path = Some(arg);
            } else {
                self.show_usage = true;
            }
            self.state = OptionsBuilderState::Finished;
        }
    }

    /// One token as the value of `--color`.
    fn push_color(&mut self, arg: String)
        requires
            old(self)@.state is AwaitingColor,
        ensures
            final(self)@ == step_color(old(self)@, arg@),
    {
        self.state = OptionsBuilderState::Ready;
        let picked = if str_eq(arg.as_str(), "always") {
            Some(Color::Always)
        } else if str_eq(arg.as_str(), "auto") {
            Some(Color::Auto)
        } else if str_eq(arg.as_str(), "never") {
            Some(Color::Never)
        } else {
            None
        };
        match picked {
            Some(c) => {
                if self.color.is_none() {
                    self.color = Some(c);
                } else {
                    self.show_usage = true;
                }
            },
            None => {
                self.show_usage = true;
            },
        }
    }
}

/// Unrolls the fold by one token: interpreting a prefix one longer is one
/// step on the interpretation of the prefix.
pub proof fn lemma_interpret_args_step(args: Seq<Seq<char>>, i: int)
    requires
        0 <= i < args.len(),
    ensures
        interpret_args(args.take(i + 1)) == arg_step(interpret_args(args.take(i)), args[i]),
{
    assert(args.take(i + 1).drop_last() =~= args.take(i));
    assert(args.take(i + 1).last() == args[i]);
}

/// No token ever overwrites an option that is already set: a repeated or
/// conflicting token only raises the usage flag, whatever the order of the
/// tokens; and the usage flag, once raised, never clears.
pub proof fn lemma_no_silent_overwrite(m: BuilderModel, arg: Seq<char>)
    ensures
        m.verbosity is Some ==> arg_step(m, arg).verbosity == m.verbosity,
        m.color is Some ==> arg_step(m, arg).color == m.color,
        m.manifest_path is Some ==> arg_step(m, arg).manifest_path == m.manifest_path,
        m.template_path is Some ==> arg_step(m, arg).template_path == m.template_path,
        m.show_usage ==> arg_step(m, arg).show_usage,
{
}

/// A flag still awaiting its value when the tokens run out signals usage:
/// a dangling flag is never defaulted.
pub proof fn lemma_dangling_flag(m: BuilderModel)
    requires
        m.state is AwaitingColor || m.state is AwaitingManifestPath,
    ensures
        build_result(m) is None,
{
}

/// A usage error seen after any prefix of the tokens is never forgotten: the
/// whole interpretation still signals usage and resolves to no options.
pub proof fn lemma_usage_is_final(args: Seq<Seq<char>>, i: int)
    requires
        0 <= i <= args.len(),
        interpret_args(args.take(i)).show_usage,
    ensures
        interpret_args(args).show_usage,
        build_result(interpret_args(args)) is None,
    decreases args.len() - i,
{
    if i < args.len() {
        lemma_interpret_args_step(args, i);
        lemma_no_silent_overwrite(interpret_args(args.take(i)), args[i]);
        lemma_usage_is_final(args, i + 1);
    } else {
        assert(args.take(i) =~= args);
    }
}

} // verus!
