//! Toolchain resolution: from a source file's extension and a language
//! registry to concrete compile / run / check command lines.
//!
//! Command templates carry a closed vocabulary of placeholders
//! (`{executable}`, `{output_path}`, `{program_name}`, `{args}`,
//! `{input_path}`, `{exe_suffix}`); an unknown placeholder is rejected
//! rather than ignored, to catch descriptor typos early.  The rendered
//! command line is split into program and arguments the way the Bourne
//! shell would.

use vstd::prelude::*;

use crate::checker::{lemma_find_char_bounds, spec_find_char};
use crate::strutil::{chars_eq_str, chars_to_string, subrange_vec, to_char_vec};

verus! {

/// A compiler descriptor: its executable, the template of the command
/// that checks its presence, and the template of the compile command.
#[derive(Debug, Clone)]
pub struct Compiler {
    pub executable: String,
    pub check: String,
    pub run: String,
}

/// A runner descriptor for interpreted languages, shaped like
/// [`Compiler`].
#[derive(Debug, Clone)]
pub struct Runner {
    pub executable: String,
    pub check: String,
    pub run: String,
}

/// A language: optional compiler (absent for interpreted languages) and
/// optional runner (absent for natively compiled ones).
#[derive(Debug, Clone)]
pub struct Language {
    pub language: String,
    pub compiler: Option<Compiler>,
    pub runner: Option<Runner>,
}

/// A concrete command: the program to execute and its arguments.
#[derive(Debug, Clone)]
pub struct CommandSpec {
    pub program: String,
    pub args: Vec<String>,
}

/// Why a toolchain could not be resolved into a command.
#[derive(Debug, PartialEq, Eq, Structural, Copy, Clone)]
pub enum ToolchainError {
    /// The source file has no extension.
    NoExtension,
    /// No language is registered under the extension.
    UnknownLanguage,
    /// The per-day compile-arguments map has no entry for the extension.
    MissingCompileArgs,
    /// A command template holds a placeholder outside the vocabulary,
    /// or an unbalanced brace.
    UnknownPlaceholder,
    /// The rendered command line has unbalanced quotes.
    MismatchedQuotes,
    /// The rendered command line holds no word.
    EmptyCommand,
}

/// What `shellwords::split` returns for a command line: the words, or
/// nothing when the quotes are mismatched.
pub uninterp spec fn shell_split_of(s: Seq<char>) -> Option<Seq<Seq<char>>>;

/// Relies on `shellwords::split`: splits a string into words the way
/// the UNIX Bourne shell does, failing on mismatched quotes.
#[verifier::external_body]
fn shell_split(s: &str) -> (r: Result<Vec<String>, shellwords::MismatchedQuotes>)
    ensures
        match r {
            Ok(ws) => shell_split_of(s@) == Some(ws@.map_values(|w: String| w@)),
            Err(_) => shell_split_of(s@) is None,
        },
{
    shellwords::split(s)
}

/// Declares `shellwords`' mismatched-quotes error so the wrapper can
/// return it.
#[verifier::external_type_specification]
#[verifier::external_body]
pub struct ExMismatchedQuotes(shellwords::MismatchedQuotes);

/// The words of a command: its program followed by its arguments.
pub open spec fn spec_command_words(cs: CommandSpec) -> Seq<Seq<char>> {
    seq![cs.program@] + cs.args@.map_values(|a: String| a@)
}

/// Splits a rendered command line into a program and its arguments.
/// Fails on mismatched quotes and on a command line without words.
pub fn string_to_command(command_str: &str) -> (r: Result<CommandSpec, ToolchainError>)
    ensures
        match r {
            Ok(cs) => shell_split_of(command_str@) matches Some(ws) && ws.len() > 0
                && spec_command_words(cs) == ws,
            Err(ToolchainError::MismatchedQuotes) => shell_split_of(command_str@) is None,
            Err(ToolchainError::EmptyCommand) => shell_split_of(command_str@) == Some(
                Seq::<Seq<char>>::empty(),
            ),
            Err(_) => false,
        },
{
    match shell_split(command_str) {
        Err(_) => Err(ToolchainError::MismatchedQuotes),
        Ok(mut parts) => {
            if parts.len() == 0 {
                proof {
                    assert(parts@.map_values(|w: String| w@) =~= Seq::<Seq<char>>::empty());
                }
                return Err(ToolchainError::EmptyCommand);
            }
            let ghost ws = parts@.map_values(|w: String| w@);
            let program = parts.remove(0);
            proof {
                assert(spec_command_words(
                    CommandSpec { program, args: parts },
                ) =~= ws);
            }
            Ok(CommandSpec { program, args: parts })
        },
    }
}

/// First binding of a key in a substitution environment.
pub open spec fn spec_lookup(keys: Seq<(Seq<char>, Seq<char>)>, key: Seq<char>) -> Option<
    Seq<char>,
>
    decreases keys.len(),
{
    if keys.len() == 0 {
        None
    } else if keys.first().0 == key {
        Some(keys.first().1)
    } else {
        spec_lookup(keys.drop_first(), key)
    }
}

/// View of an executable substitution environment.
pub open spec fn env_view(keys: Seq<(String, String)>) -> Seq<(Seq<char>, Seq<char>)> {
    keys.map_values(|p: (String, String)| (p.0@, p.1@))
}

/// Renders a template: `{key}` becomes the key's binding, `{{` and `}}`
/// become literal braces, and any unknown key or unbalanced brace makes
/// the whole template invalid.
pub open spec fn spec_subst(t: Seq<char>, keys: Seq<(Seq<char>, Seq<char>)>) -> Option<Seq<char>>
    decreases t.len(),
{
    if t.len() == 0 {
        Some(Seq::empty())
    } else if t.first() == '{' {
        if t.len() > 1 && t[1] == '{' {
            match spec_subst(t.subrange(2, t.len() as int), keys) {
                None => None,
                Some(rest) => Some(seq!['{'] + rest),
            }
        } else {
            match spec_find_char(t, 1, '}') {
                None => None,
                Some(e) => {
                    let key = t.subrange(1, e);
                    match spec_lookup(keys, key) {
                        None => None,
                        Some(v) => {
                            proof {
                                lemma_find_char_bounds(t, 1, '}');
                            }
                            match spec_subst(t.subrange(e + 1, t.len() as int), keys) {
                                None => None,
                                Some(rest) => Some(v + rest),
                            }
                        },
                    }
                },
            }
        }
    } else if t.first() == '}' {
        if t.len() > 1 && t[1] == '}' {
            match spec_subst(t.subrange(2, t.len() as int), keys) {
                None => None,
                Some(rest) => Some(seq!['}'] + rest),
            }
        } else {
            None
        }
    } else {
        match spec_subst(t.drop_first(), keys) {
            None => None,
            Some(rest) => Some(seq![t.first()] + rest),
        }
    }
}

fn lookup_key(keys: &Vec<(String, String)>, key: &[char]) -> (r: Option<String>)
    ensures
        match r {
            Some(v) => spec_lookup(env_view(keys@), key@) == Some(v@),
            None => spec_lookup(env_view(keys@), key@) is None,
        },
{
    let ghost env = env_view(keys@);
    let mut i: usize = 0;
    proof {
        assert(env.skip(0) =~= env);
    }
    while i < keys.len()
        invariant
            env == env_view(keys@),
            i <= keys@.len(),
            spec_lookup(env, key@) == spec_lookup(env.skip(i as int), key@),
        decreases keys@.len() - i,
    {
        proof {
            assert(env.skip(i as int).first() == env[i as int]);
            assert(env[i as int] == (keys@[i as int].0@, keys@[i as int].1@));
            assert(env.skip(i as int).drop_first() =~= env.skip(i + 1));
        }
        if chars_eq_str(key, keys[i].0.as_str()) {
            let v = crate::strutil::to_char_vec(keys[i].1.as_str());
            let out = chars_to_string(v.as_slice());
            return Some(out);
        }
        i = i + 1;
    }
    proof {
        assert(env.skip(env.len() as int) =~= Seq::<(Seq<char>, Seq<char>)>::empty());
    }
    None
}

fn subst_chars(t: &[char], keys: &Vec<(String, String)>) -> (r: Option<String>)
    ensures
        match r {
            Some(v) => spec_subst(t@, env_view(keys@)) == Some(v@),
            None => spec_subst(t@, env_view(keys@)) is None,
        },
    decreases t@.len(),
{
    if t.len() == 0 {
        let out = String::new();
        proof {
            assert(out@ =~= Seq::<char>::empty());
        }
        return Some(out);
    }
    let c = t[0];
    if c == '{' {
        if t.len() > 1 && t[1] == '{' {
            let tail = subrange_vec(t, 2, t.len());
            match subst_chars(tail.as_slice(), keys) {
                None => None,
                Some(rest) => {
                    let mut out = String::new();
                    crate::strutil::push_char(&mut out, '{');
                    out.append(rest.as_str());
                    proof {
                        assert(out@ =~= seq!['{'] + rest@);
                    }
                    Some(out)
                },
            }
        } else {
            match crate::checker::find_char_in(t, 1, '}') {
                None => None,
                Some(e) => {
                    let key = subrange_vec(t, 1, e);
                    match lookup_key(keys, key.as_slice()) {
                        None => None,
                        Some(v) => {
                            let tail = subrange_vec(t, e + 1, t.len());
                            match subst_chars(tail.as_slice(), keys) {
                                None => None,
                                Some(rest) => {
                                    let mut out = v;
                                    out.append(rest.as_str());
                                    Some(out)
                                },
                            }
                        },
                    }
                },
            }
        }
    } else if c == '}' {
        if t.len() > 1 && t[1] == '}' {
            let tail = subrange_vec(t, 2, t.len());
            match subst_chars(tail.as_slice(), keys) {
                None => None,
                Some(rest) => {
                    let mut out = String::new();
                    crate::strutil::push_char(&mut out, '}');
                    out.append(rest.as_str());
                    proof {
                        assert(out@ =~= seq!['}'] + rest@);
                    }
                    Some(out)
                },
            }
        } else {
            None
        }
    } else {
        let tail = subrange_vec(t, 1, t.len());
        proof {
            assert(tail@ =~= t@.drop_first());
        }
        match subst_chars(tail.as_slice(), keys) {
            None => None,
            Some(rest) => {
                let mut out = String::new();
                crate::strutil::push_char(&mut out, c);
                out.append(rest.as_str());
                proof {
                    assert(out@ =~= seq![t@.first()] + rest@);
                }
                Some(out)
            },
        }
    }
}

/// Renders a command template against a set of placeholder bindings.
/// `None` exactly when the template holds an unknown placeholder or an
/// unbalanced brace.
pub fn render_command_template(template: &str, keys: &Vec<(String, String)>) -> (r: Option<String>)
    ensures
        match r {
            Some(v) => spec_subst(template@, env_view(keys@)) == Some(v@),
            None => spec_subst(template@, env_view(keys@)) is None,
        },
{
    let t = to_char_vec(template);
    subst_chars(t.as_slice(), keys)
}

/// Position of the last occurrence of `c`.
pub open spec fn spec_rfind(s: Seq<char>, c: char) -> Option<int>
    decreases s.len(),
{
    if s.len() == 0 {
        None
    } else if s.last() == c {
        Some(s.len() - 1)
    } else {
        spec_rfind(s.drop_last(), c)
    }
}

/// Where the file name begins: just after the last path separator.
pub open spec fn spec_file_name_start(path: Seq<char>) -> int {
    let a = match spec_rfind(path, '/') {
        None => 0,
        Some(k) => k + 1,
    };
    let b = match spec_rfind(path, '\\') {
        None => 0,
        Some(k) => k + 1,
    };
    if a >= b {
        a
    } else {
        b
    }
}

/// The extension of a path: what follows the last dot of its file name,
/// unless the name has no dot or starts with its only dot (a hidden
/// file).
pub open spec fn spec_ext_of(path: Seq<char>) -> Option<Seq<char>> {
    let start = spec_file_name_start(path);
    let name = path.subrange(start, path.len() as int);
    match spec_rfind(name, '.') {
        None => None,
        Some(d) => if d == 0 {
            None
        } else {
            Some(name.subrange(d + 1, name.len() as int))
        },
    }
}

fn rfind_char(s: &[char], c: char) -> (r: Option<usize>)
    ensures
        match r {
            Some(k) => spec_rfind(s@, c) == Some(k as int) && k < s@.len() && k < usize::MAX,
            None => spec_rfind(s@, c) is None,
        },
{
    let mut j = s.len();
    proof {
        assert(s@.take(s@.len() as int) =~= s@);
    }
    while j > 0
        invariant
            j <= s@.len(),
            spec_rfind(s@, c) == spec_rfind(s@.take(j as int), c),
        decreases j,
    {
        proof {
            assert(s@.take(j as int).last() == s@[j - 1]);
            assert(s@.take(j as int).drop_last() =~= s@.take(j - 1));
        }
        if s[j - 1] == c {
            proof {
                assert(s@.take(s@.len() as int) =~= s@);
            }
            return Some(j - 1);
        }
        j = j - 1;
    }
    proof {
        assert(s@.take(0) =~= Seq::<char>::empty());
    }
    None
}

/// Extracts a path's extension.
pub fn ext_of(path: &str) -> (r: Option<String>)
    ensures
        match r {
            Some(e) => spec_ext_of(path@) == Some(e@),
            None => spec_ext_of(path@) is None,
        },
{
    let cs = to_char_vec(path);
    let s = cs.as_slice();
    let a = match rfind_char(s, '/') {
        None => 0,
        Some(k) => k + 1,
    };
    let b = match rfind_char(s, '\\') {
        None => 0,
        Some(k) => k + 1,
    };
    let start = if a >= b {
        a
    } else {
        b
    };
    let name = subrange_vec(s, start, s.len());
    match rfind_char(name.as_slice(), '.') {
        None => None,
        Some(d) => {
            if d == 0 {
                None
            } else {
                let e = subrange_vec(name.as_slice(), d + 1, name.len());
                Some(chars_to_string(e.as_slice()))
            }
        },
    }
}

/// The registry of known languages, keyed by source-file extension.
#[derive(Debug)]
pub struct LanguageRegistry {
    pub entries: Vec<(String, Language)>,
}

/// The language registered under an extension (first entry wins).
pub open spec fn spec_lang_for(entries: Seq<(String, Language)>, ext: Seq<char>) -> Option<
    Language,
>
    decreases entries.len(),
{
    if entries.len() == 0 {
        None
    } else if entries.first().0@ == ext {
        Some(entries.first().1)
    } else {
        spec_lang_for(entries.drop_first(), ext)
    }
}

impl LanguageRegistry {
    /// Looks the extension up in the registry; fails with
    /// `UnknownLanguage` when nothing is registered under it.
    pub fn resolve(&self, extension: &str) -> (r: Result<&Language, ToolchainError>)
        ensures
            match r {
                Ok(l) => spec_lang_for(self.entries@, extension@) == Some(*l),
                Err(e) => e == ToolchainError::UnknownLanguage && spec_lang_for(
                    self.entries@,
                    extension@,
                ) is None,
            },
    {
        let key = to_char_vec(extension);
        let mut i: usize = 0;
        proof {
            assert(self.entries@.skip(0) =~= self.entries@);
        }
        while i < self.entries.len()
            invariant
                key@ == extension@,
                i <= self.entries@.len(),
                spec_lang_for(self.entries@, extension@) == spec_lang_for(
                    self.entries@.skip(i as int),
                    extension@,
                ),
            decreases self.entries@.len() - i,
        {
            proof {
                assert(self.entries@.skip(i as int).first() == self.entries@[i as int]);
                assert(self.entries@.skip(i as int).drop_first() =~= self.entries@.skip(i + 1));
            }
            if chars_eq_str(key.as_slice(), self.entries[i].0.as_str()) {
                return Ok(&self.entries[i].1);
            }
            i = i + 1;
        }
        proof {
            assert(self.entries@.skip(self.entries@.len() as int) =~= Seq::<(
                String,
                Language,
            )>::empty());
        }
        Err(ToolchainError::UnknownLanguage)
    }
}

/// Resolves the language responsible for a source file: the registry
/// entry under the file's extension.  Fails with `NoExtension` for a
/// file without one and `UnknownLanguage` for an unregistered one.
pub fn resolve_language<'a>(registry: &'a LanguageRegistry, src_path: &str) -> (r: Result<
    &'a Language,
    ToolchainError,
>)
    ensures
        match r {
            Ok(l) => spec_ext_of(src_path@) matches Some(e) && spec_lang_for(
                registry.entries@,
                e,
            ) == Some(*l),
            Err(ToolchainError::NoExtension) => spec_ext_of(src_path@) is None,
            Err(ToolchainError::UnknownLanguage) => (spec_ext_of(src_path@) matches Some(e)
                && spec_lang_for(registry.entries@, e) is None),
            Err(_) => false,
        },
{
    match ext_of(src_path) {
        None => Err(ToolchainError::NoExtension),
        Some(ext) => registry.resolve(ext.as_str()),
    }
}

/// The substitution environment of a compile command.
pub open spec fn spec_compile_env(
    c: Compiler,
    src: Seq<char>,
    out: Seq<char>,
    prog: Seq<char>,
    args: Seq<char>,
    suffix: Seq<char>,
) -> Seq<(Seq<char>, Seq<char>)> {
    seq![
        ("executable"@, c.executable@),
        ("output_path"@, out),
        ("program_name"@, prog),
        ("args"@, args),
        ("input_path"@, src),
        ("exe_suffix"@, suffix),
    ]
}

/// The substitution environment of a run command.
pub open spec fn spec_run_env(
    r: Runner,
    input: Seq<char>,
    prog: Seq<char>,
    suffix: Seq<char>,
) -> Seq<(Seq<char>, Seq<char>)> {
    seq![
        ("executable"@, r.executable@),
        ("input_path"@, input),
        ("program_name"@, prog),
        ("exe_suffix"@, suffix),
    ]
}

/// The substitution environment of a presence-check command.
pub open spec fn spec_check_env(executable: Seq<char>) -> Seq<(Seq<char>, Seq<char>)> {
    seq![("executable"@, executable)]
}

/// What rendering a template and splitting the result yields.
pub open spec fn spec_rendered_command(
    template: Seq<char>,
    env: Seq<(Seq<char>, Seq<char>)>,
    r: Result<CommandSpec, ToolchainError>,
) -> bool {
    match spec_subst(template, env) {
        None => r == Err::<CommandSpec, ToolchainError>(ToolchainError::UnknownPlaceholder),
        Some(cmd) => match r {
            Ok(cs) => shell_split_of(cmd) matches Some(ws) && ws.len() > 0 && spec_command_words(
                cs,
            ) == ws,
            Err(ToolchainError::MismatchedQuotes) => shell_split_of(cmd) is None,
            Err(ToolchainError::EmptyCommand) => shell_split_of(cmd) == Some(
                Seq::<Seq<char>>::empty(),
            ),
            Err(_) => false,
        },
    }
}

fn render_and_split(template: &str, keys: &Vec<(String, String)>) -> (r: Result<
    CommandSpec,
    ToolchainError,
>)
    ensures
        spec_rendered_command(template@, env_view(keys@), r),
{
    match render_command_template(template, keys) {
        None => Err(ToolchainError::UnknownPlaceholder),
        Some(cmd) => string_to_command(cmd.as_str()),
    }
}

fn pair(k: &str, v: &str) -> (r: (String, String))
    ensures
        r.0@ == k@,
        r.1@ == v@,
{
    (k.to_owned(), v.to_owned())
}

/// Builds the concrete compile command for a tester's source file, or
/// `None` for a language without a compilation step.  The placeholders
/// of the compiler's `run` template are filled with the compiler
/// executable, the output directory, the problem's program name, the
/// per-day compile arguments, the source path and the platform's
/// executable suffix.
pub fn build_compile_cmd(
    language: &Language,
    src_path: &str,
    output_path: &str,
    program_name: &str,
    compile_args: &str,
    exe_suffix: &str,
) -> (r: Result<Option<CommandSpec>, ToolchainError>)
    ensures
        match language.compiler {
            None => r matches Ok(o) && o is None,
            Some(c) => {
                let env = spec_compile_env(
                    c,
                    src_path@,
                    output_path@,
                    program_name@,
                    compile_args@,
                    exe_suffix@,
                );
                match r {
                    Ok(o) => o matches Some(cs) && spec_rendered_command(c.run@, env, Ok(cs)),
                    Err(e) => spec_rendered_command(c.run@, env, Err(e)),
                }
            },
        },
{
    match &language.compiler {
        None => Ok(None),
        Some(c) => {
            let mut keys: Vec<(String, String)> = Vec::new();
            keys.push(pair("executable", c.executable.as_str()));
            keys.push(pair("output_path", output_path));
            keys.push(pair("program_name", program_name));
            keys.push(pair("args", compile_args));
            keys.push(pair("input_path", src_path));
            keys.push(pair("exe_suffix", exe_suffix));
            proof {
                assert(env_view(keys@) =~= spec_compile_env(
                    *c,
                    src_path@,
                    output_path@,
                    program_name@,
                    compile_args@,
                    exe_suffix@,
                ));
            }
            match render_and_split(c.run.as_str(), &keys) {
                Ok(cs) => Ok(Some(cs)),
                Err(e) => Err(e),
            }
        },
    }
}

/// Builds the concrete run command for an interpreted language, or
/// `None` for a language that runs its compiled binary directly.  The
/// runner's `run` template sees the runner executable, the path of the
/// prepared program, the program name and the executable suffix.
pub fn build_run_cmd(
    language: &Language,
    input_path: &str,
    program_name: &str,
    exe_suffix: &str,
) -> (r: Result<Option<CommandSpec>, ToolchainError>)
    ensures
        match language.runner {
            None => r matches Ok(o) && o is None,
            Some(ru) => {
                let env = spec_run_env(ru, input_path@, program_name@, exe_suffix@);
                match r {
                    Ok(o) => o matches Some(cs) && spec_rendered_command(ru.run@, env, Ok(cs)),
                    Err(e) => spec_rendered_command(ru.run@, env, Err(e)),
                }
            },
        },
{
    match &language.runner {
        None => Ok(None),
        Some(ru) => {
            let mut keys: Vec<(String, String)> = Vec::new();
            keys.push(pair("executable", ru.executable.as_str()));
            keys.push(pair("input_path", input_path));
            keys.push(pair("program_name", program_name));
            keys.push(pair("exe_suffix", exe_suffix));
            proof {
                assert(env_view(keys@) =~= spec_run_env(
                    *ru,
                    input_path@,
                    program_name@,
                    exe_suffix@,
                ));
            }
            match render_and_split(ru.run.as_str(), &keys) {
                Ok(cs) => Ok(Some(cs)),
                Err(e) => Err(e),
            }
        },
    }
}

/// Builds the command that checks a compiler's or runner's presence
/// (usually `<executable> --version`).  The application runs it before
/// every compilation attempt: the environment may change between
/// invocations, so the check is never cached.
pub fn build_check_cmd(executable: &str, check_template: &str) -> (r: Result<
    CommandSpec,
    ToolchainError,
>)
    ensures
        spec_rendered_command(check_template@, spec_check_env(executable@), r),
{
    let mut keys: Vec<(String, String)> = Vec::new();
    keys.push(pair("executable", executable));
    proof {
        assert(env_view(keys@) =~= spec_check_env(executable@));
    }
    render_and_split(check_template, &keys)
}

/// The compile-argument string registered for an extension in the
/// per-day compile map; fails with `MissingCompileArgs` when absent.
pub fn compile_args_for(compile_map: &Vec<(String, String)>, extension: &str) -> (r: Result<
    String,
    ToolchainError,
>)
    ensures
        match r {
            Ok(a) => spec_lookup(env_view(compile_map@), extension@) == Some(a@),
            Err(e) => e == ToolchainError::MissingCompileArgs && spec_lookup(
                env_view(compile_map@),
                extension@,
            ) is None,
        },
{
    let key = to_char_vec(extension);
    match lookup_key(compile_map, key.as_slice()) {
        Some(a) => Ok(a),
        None => Err(ToolchainError::MissingCompileArgs),
    }
}

} // verus!
