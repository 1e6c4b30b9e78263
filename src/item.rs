//! Menu records: parsing one line of an entry file into an action, and
//! resolving an action's working directory.
use vstd::prelude::*;
use crate::text::{
    chars_of, lemma_split_on_first_piece, push_all, split_chars, split_on, string_from_chars, trim, trim_chars,
};

verus! {

/// Name of the entry file that defines a menu, also looked up inside the
/// working directory of a submenu link.
pub const MENU_FILE: &'static str = "menu.csv";

/// Failure to resolve a path.
#[derive(Debug, Clone, Copy, PartialEq, Eq, Structural)]
pub enum MenuError {
    /// The path starts with `~` and no home directory could be determined.
    HomeNotFound,
}

/// One action of a menu: a label, a working directory as written (possibly
/// starting with `~`), and a program with its arguments. An empty command
/// marks a link to a nested menu.
#[derive(Debug)]
pub struct MenuItem {
    pub name: String,
    pub working_dir: String,
    pub command: Vec<String>,
}

/// The mathematical content of a [`MenuItem`].
pub struct ItemView {
    pub name: Seq<char>,
    pub working_dir: Seq<char>,
    pub command: Seq<Seq<char>>,
}

/// The texts of a sequence of strings.
pub open spec fn texts(v: Seq<String>) -> Seq<Seq<char>> {
    v.map_values(|s: String| s@)
}

impl View for MenuItem {
    type V = ItemView;

    open spec fn view(&self) -> ItemView {
        ItemView { name: self.name@, working_dir: self.working_dir@, command: texts(self.command@) }
    }
}

/// The view of an optional item.
pub open spec fn opt_item_view(r: Option<MenuItem>) -> Option<ItemView> {
    match r {
        Some(item) => Some(item@),
        None => None,
    }
}

/// The words that shell-style splitting makes of `s`, honouring quotes and
/// escapes; `None` where the quoting is unbalanced.
pub uninterp spec fn shell_words(s: Seq<char>) -> Option<Seq<Seq<char>>>;

/// Relies on `shlex::split`: the words of a command line under shell quoting
/// rules, or `None` where the input cannot be split (an unclosed quote, a
/// trailing backslash). The result depends on the input text alone.
#[verifier::external_body]
fn split_words(s: &str) -> (r: Option<Vec<String>>)
    ensures
        match r {
            Some(v) => shell_words(s@) == Some(texts(v@)),
            None => shell_words(s@) is None,
        },
{
    shlex::split(s)
}

/// The action described by one entry-file line: fields are separated by
/// commas; a line with fewer than three fields describes nothing; the third
/// field, trimmed, is the command, empty for a submenu link and otherwise
/// split into shell words (a line whose command cannot be split describes
/// nothing). Fields after the third are ignored.
pub open spec fn parse_line(line: Seq<char>) -> Option<ItemView> {
    let f = split_on(line, ',');
    if f.len() < 3 {
        None
    } else {
        let cmd = trim(f[2]);
        if cmd.len() == 0 {
            Some(ItemView { name: f[0], working_dir: f[1], command: Seq::empty() })
        } else {
            match shell_words(cmd) {
                Some(w) => Some(ItemView { name: f[0], working_dir: f[1], command: w }),
                None => None,
            }
        }
    }
}

/// The name of an action, with the two commas after it, fits in its line.
pub proof fn lemma_name_fits_line(line: Seq<char>)
    ensures
        parse_line(line) matches Some(it) ==> it.name.len() + 2 <= line.len(),
{
    lemma_split_on_first_piece(line, ',');
}

/// The three fields that a record line consists of: name, working directory
/// and the trimmed command text; `None` for a line with fewer than three
/// comma-separated fields.
pub fn record_fields(line: &str) -> (r: Option<(String, String, String)>)
    ensures
        match r {
            Some((name, dir, cmd)) => {
                let f = split_on(line@, ',');
                &&& f.len() >= 3
                &&& name@ == f[0]
                &&& dir@ == f[1]
                &&& cmd@ == trim(f[2])
            },
            None => split_on(line@, ',').len() < 3,
        },
        line@.len() <= usize::MAX,
{
    let cs = chars_of(line);
    let _ = cs.len();
    let parts = split_chars(cs.as_slice(), ',');
    if parts.len() < 3 {
        return None;
    }
    let name = string_from_chars(parts[0].as_slice());
    let dir = string_from_chars(parts[1].as_slice());
    let cmd = trim_chars(parts[2].as_slice());
    let cmd = string_from_chars(cmd.as_slice());
    Some((name, dir, cmd))
}

impl MenuItem {
    /// Parses one line of an entry file; malformed lines give `None`.
    pub fn from_csv_line(line: &str) -> (r: Option<MenuItem>)
        ensures
            opt_item_view(r) == parse_line(line@),
            line@.len() <= usize::MAX,
    {
        match record_fields(line) {
            None => None,
            Some((name, working_dir, cmd)) => {
                if cmd.as_str().is_empty() {
                    let command: Vec<String> = Vec::new();
                    assert(texts(command@) =~= Seq::<Seq<char>>::empty());
                    Some(MenuItem { name, working_dir, command })
                } else {
                    match split_words(cmd.as_str()) {
                        Some(command) => Some(MenuItem { name, working_dir, command }),
                        None => None,
                    }
                }
            },
        }
    }

    /// Whether this action links to a nested menu rather than running a
    /// program.
    pub fn is_submenu(&self) -> (r: bool)
        ensures
            r == (self@.command.len() == 0),
    {
        self.command.len() == 0
    }
}


/// `rest` appended to the path `base` as `Path::join` does on Unix: an
/// absolute `rest` replaces `base`; otherwise a `/` separates the two unless
/// `base` is empty or already ends with one.
pub open spec fn join_path(base: Seq<char>, rest: Seq<char>) -> Seq<char> {
    if rest.len() > 0 && rest[0] == '/' {
        rest
    } else if base.len() > 0 && base.last() != '/' {
        base + seq!['/'] + rest
    } else {
        base + rest
    }
}

/// `path` with a leading `~` replaced by the home directory `home`: `~`
/// alone is the home directory, and otherwise what follows the first two
/// characters (`~/`) is joined onto it. A path without a leading `~` is kept.
pub open spec fn expand_with(path: Seq<char>, home: Option<Seq<char>>) -> Result<Seq<char>, MenuError> {
    if path.len() > 0 && path[0] == '~' {
        match home {
            None => Err(MenuError::HomeNotFound),
            Some(h) => Ok(
                if path.len() == 1 {
                    h
                } else {
                    join_path(h, path.skip(2))
                },
            ),
        }
    } else {
        Ok(path)
    }
}

/// Whether `r` is what expanding `path` gives for some home directory, or
/// for none.
pub open spec fn is_expansion_of(path: Seq<char>, r: Result<Seq<char>, MenuError>) -> bool {
    exists|home: Option<Seq<char>>| expand_with(path, home) == r
}

/// The text of an optional string.
pub open spec fn opt_text(o: Option<String>) -> Option<Seq<char>> {
    match o {
        Some(s) => Some(s@),
        None => None,
    }
}

/// The text of a successful result.
pub open spec fn res_text(r: Result<String, MenuError>) -> Result<Seq<char>, MenuError> {
    match r {
        Ok(s) => Ok(s@),
        Err(e) => Err(e),
    }
}

fn join_chars(base: &[char], rest: &[char]) -> (r: String)
    ensures
        r@ == join_path(base@, rest@),
{
    if rest.len() > 0 && rest[0] == '/' {
        return string_from_chars(rest);
    }
    let mut out: Vec<char> = Vec::new();
    push_all(&mut out, base);
    if base.len() > 0 && base[base.len() - 1] != '/' {
        out.push('/');
    }
    push_all(&mut out, rest);
    proof {
        if base@.len() > 0 && base@.last() != '/' {
            assert(out@ =~= base@ + seq!['/'] + rest@);
        } else {
            assert(out@ =~= base@ + rest@);
        }
    }
    string_from_chars(out.as_slice())
}

/// Joins `rest` onto the path `base`.
pub fn join_path_str(base: &str, rest: &str) -> (r: String)
    ensures
        r@ == join_path(base@, rest@),
{
    let b = chars_of(base);
    let t = chars_of(rest);
    join_chars(b.as_slice(), t.as_slice())
}

/// Expands a leading `~` of `path` against the home directory `home`.
pub fn expand_tilde_with(path: &str, home: Option<String>) -> (r: Result<String, MenuError>)
    ensures
        res_text(r) == expand_with(path@, opt_text(home)),
{
    let p = chars_of(path);
    if p.len() > 0 && p[0] == '~' {
        match home {
            None => Err(MenuError::HomeNotFound),
            Some(h) => {
                if p.len() == 1 {
                    Ok(h)
                } else {
                    let hc = chars_of(h.as_str());
                    let rest = p.as_slice().split_at(2).1;
                    assert(rest@ =~= p@.skip(2));
                    Ok(join_chars(hc.as_slice(), rest))
                }
            },
        }
    } else {
        Ok(string_from_chars(p.as_slice()))
    }
}

/// Relies on `dirs::home_dir`: the user's home directory where one can be
/// determined. What it is depends on the environment, so nothing is stated.
#[verifier::external_body]
fn home_dir() -> (r: Option<String>) {
    match dirs::home_dir() {
        Some(p) => Some(p.to_string_lossy().into_owned()),
        None => None,
    }
}

/// Expands a leading `~` of `path` against the user's home directory. A path
/// without a leading `~` comes back unchanged; one with it fails exactly when
/// no home directory could be determined.
pub fn expand_tilde(path: &str) -> (r: Result<String, MenuError>)
    ensures
        is_expansion_of(path@, res_text(r)),
        !(path@.len() > 0 && path@[0] == '~') ==> res_text(r) == Ok::<Seq<char>, MenuError>(path@),
{
    let home = home_dir();
    let r = expand_tilde_with(path, home);
    assert(expand_with(path@, opt_text(home)) == res_text(r));
    r
}

impl MenuItem {
    /// The working directory with a leading `~` expanded.
    pub fn get_expanded_working_dir(&self) -> (r: Result<String, MenuError>)
        ensures
            is_expansion_of(self@.working_dir, res_text(r)),
            !(self@.working_dir.len() > 0 && self@.working_dir[0] == '~') ==> res_text(r) == Ok::<
                Seq<char>,
                MenuError,
            >(self@.working_dir),
    {
        expand_tilde(self.working_dir.as_str())
    }
}

/// The entry file of the nested menu that lives in the directory `dir`.
pub fn submenu_file(dir: &str) -> (r: String)
    ensures
        r@ == join_path(dir@, MENU_FILE@),
{
    join_path_str(dir, MENU_FILE)
}

} // verus!
