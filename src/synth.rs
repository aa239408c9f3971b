//! Synthesis of build lines: one `build <name>: <rule> <source>` line per
//! file, and an optional master line that depends on every target.
use vstd::prelude::*;
use vstd::string::*;
use crate::expand::ExpandedPath;

verus! {

/// An ordered map from a source extension to a rule. A `None` extension
/// stands for any extension that no other entry names; a `None` rule means
/// the default rule.
pub type ExtMap = Vec<(Option<String>, Option<String>)>;

/// The aggregating target: its name and the rule that builds it.
pub struct MasterTarget {
    pub name: String,
    pub rule: String,
}

pub open spec fn opt_view(o: Option<String>) -> Option<Seq<char>> {
    match o {
        Some(s) => Some(s@),
        None => None,
    }
}

pub open spec fn ext_map_view(m: Seq<(Option<String>, Option<String>)>) -> Seq<
    (Option<Seq<char>>, Option<Seq<char>>),
> {
    m.map_values(|e: (Option<String>, Option<String>)| (opt_view(e.0), opt_view(e.1)))
}

pub open spec fn paths_of(files: Seq<ExpandedPath>) -> Seq<Seq<char>> {
    files.map_values(|f: ExpandedPath| f.path@)
}

/// The rule used where no entry of the map gives one.
pub open spec fn default_rule() -> Seq<char> {
    seq!['c', 'c']
}

/// The index of the last `c` among the first `i` characters of `s`, or -1.
pub open spec fn last_before(s: Seq<char>, c: char, i: int) -> int
    decreases i,
{
    if i <= 0 {
        -1
    } else if s[i - 1] == c {
        i - 1
    } else {
        last_before(s, c, i - 1)
    }
}

/// The last component of a path: what follows its last `/`.
pub open spec fn file_name_of(path: Seq<char>) -> Seq<char> {
    path.subrange(last_before(path, '/', path.len() as int) + 1, path.len() as int)
}

/// Where the extension of a file name starts: its last `.`, unless that
/// `.` opens the name.
pub open spec fn dot_of(name: Seq<char>) -> int {
    last_before(name, '.', name.len() as int)
}

/// The target name of a source: its file name without the final extension.
pub open spec fn name_of(path: Seq<char>) -> Seq<char> {
    let n = file_name_of(path);
    if dot_of(n) > 0 {
        n.subrange(0, dot_of(n))
    } else {
        n
    }
}

/// The extension of a source's file name, if it has one.
pub open spec fn extension_of(path: Seq<char>) -> Option<Seq<char>> {
    let n = file_name_of(path);
    if dot_of(n) > 0 {
        Some(n.subrange(dot_of(n) + 1, n.len() as int))
    } else {
        None
    }
}

/// The rule of the first entry whose extension pattern is `pat`.
pub open spec fn first_match(
    rules: Seq<(Option<Seq<char>>, Option<Seq<char>>)>,
    pat: Option<Seq<char>>,
) -> Option<Option<Seq<char>>>
    decreases rules.len(),
{
    if rules.len() == 0 {
        None
    } else if rules[0].0 == pat {
        Some(rules[0].1)
    } else {
        first_match(rules.drop_first(), pat)
    }
}

/// The rule for an extension: the first entry naming it exactly, else the
/// first entry with no extension, else the default; an entry without a
/// rule gives the default.
pub open spec fn rule_of(
    rules: Seq<(Option<Seq<char>>, Option<Seq<char>>)>,
    ext: Option<Seq<char>>,
) -> Seq<char> {
    let hit = if first_match(rules, ext) is Some {
        first_match(rules, ext)
    } else {
        first_match(rules, None)
    };
    match hit {
        Some(Some(r)) => r,
        _ => default_rule(),
    }
}

/// `build <name>: <rule> <source>` for one source path.
pub open spec fn line_of(path: Seq<char>, rules: Seq<(Option<Seq<char>>, Option<Seq<char>>)>) -> Seq<
    char,
> {
    "build "@ + name_of(path) + ": "@ + rule_of(rules, extension_of(path)) + " "@ + path
}

/// Each of `names` preceded by a space.
pub open spec fn spaced(names: Seq<Seq<char>>) -> Seq<char>
    decreases names.len(),
{
    if names.len() == 0 {
        Seq::empty()
    } else {
        spaced(names.drop_last()) + " "@ + names.last()
    }
}

/// `build <name>: <rule>` followed by the inputs, each after a space.
pub open spec fn master_line_of(name: Seq<char>, rule: Seq<char>, inputs: Seq<Seq<char>>) -> Seq<
    char,
> {
    "build "@ + name + ": "@ + rule + spaced(inputs)
}

/// All the lines for `paths`, in order, then the master line if any.
pub open spec fn lines_of(
    paths: Seq<Seq<char>>,
    rules: Seq<(Option<Seq<char>>, Option<Seq<char>>)>,
    master: Option<(Seq<char>, Seq<char>)>,
) -> Seq<Seq<char>> {
    let lines = paths.map_values(|p: Seq<char>| line_of(p, rules));
    match master {
        Some((n, r)) => lines.push(master_line_of(n, r, paths.map_values(|p: Seq<char>| name_of(p)))),
        None => lines,
    }
}

pub open spec fn master_view(m: Option<MasterTarget>) -> Option<(Seq<char>, Seq<char>)> {
    match m {
        Some(t) => Some((t.name@, t.rule@)),
        None => None,
    }
}

proof fn lemma_last_before_range(s: Seq<char>, c: char, i: int)
    requires
        0 <= i <= s.len(),
    ensures
        -1 <= last_before(s, c, i) < i,
        last_before(s, c, i) >= 0 ==> s[last_before(s, c, i)] == c,
    decreases i,
{
    if i > 0 && s[i - 1] != c {
        lemma_last_before_range(s, c, i - 1);
    }
}

/// The last `c` among the first `end` characters of `s`.
fn find_last(s: &str, c: char, end: usize) -> (r: Option<usize>)
    requires
        end <= s@.len(),
    ensures
        match r {
            Some(k) => k as int == last_before(s@, c, end as int),
            None => last_before(s@, c, end as int) == -1,
        },
{
    let mut i: usize = end;
    while i > 0
        invariant
            i <= end <= s@.len(),
            last_before(s@, c, end as int) == last_before(s@, c, i as int),
        decreases i,
    {
        if s.get_char(i - 1) == c {
            return Some(i - 1);
        }
        i = i - 1;
    }
    None
}

/// The file name of `path`, and where its extension's `.` stands in it.
fn split_name(path: &str) -> (r: (String, Option<usize>))
    ensures
        r.0@ == file_name_of(path@),
        match r.1 {
            Some(d) => d as int == dot_of(r.0@) && d > 0,
            None => dot_of(r.0@) <= 0,
        },
{
    let len = path.unicode_len();
    proof {
        lemma_last_before_range(path@, '/', len as int);
    }
    let start = match find_last(path, '/', len) {
        Some(k) => k + 1,
        None => 0,
    };
    let name = path.substring_char(start, len).to_owned();
    let nlen = name.as_str().unicode_len();
    match find_last(name.as_str(), '.', nlen) {
        Some(d) => if d > 0 {
            (name, Some(d))
        } else {
            (name, None)
        },
        None => (name, None),
    }
}

/// The target name of a source path: its file name without the final
/// extension.
pub fn target_name(path: &str) -> (r: String)
    ensures
        r@ == name_of(path@),
{
    let (name, dot) = split_name(path);
    proof {
        lemma_last_before_range(name@, '.', name@.len() as int);
    }
    match dot {
        Some(d) => name.as_str().substring_char(0, d).to_owned(),
        None => name,
    }
}

/// The extension of a source path's file name, if it has one.
pub fn extension(path: &str) -> (r: Option<String>)
    ensures
        opt_view(r) == extension_of(path@),
{
    let (name, dot) = split_name(path);
    proof {
        lemma_last_before_range(name@, '.', name@.len() as int);
    }
    match dot {
        Some(d) => {
            let n = name.as_str().unicode_len();
            Some(name.as_str().substring_char(d + 1, n).to_owned())
        },
        None => None,
    }
}

fn same_pattern(a: &Option<String>, b: &Option<String>) -> (r: bool)
    ensures
        r == (opt_view(*a) == opt_view(*b)),
{
    match (a, b) {
        (Some(x), Some(y)) => x.eq(y),
        (None, None) => true,
        _ => false,
    }
}

fn find_rule(rules: &ExtMap, pat: &Option<String>) -> (r: Option<Option<String>>)
    ensures
        match r {
            Some(x) => first_match(ext_map_view(rules@), opt_view(*pat)) == Some(opt_view(x)),
            None => first_match(ext_map_view(rules@), opt_view(*pat)) is None,
        },
{
    let ghost all = ext_map_view(rules@);
    let mut i: usize = 0;
    assert(all.subrange(0, all.len() as int) =~= all);
    while i < rules.len()
        invariant
            i <= rules.len(),
            all == ext_map_view(rules@),
            first_match(all, opt_view(*pat)) == first_match(all.subrange(i as int, all.len() as int), opt_view(*pat)),
        decreases rules.len() - i,
    {
        let ghost tail = all.subrange(i as int, all.len() as int);
        assert(tail[0] == all[i as int]);
        assert(tail.drop_first() =~= all.subrange(i + 1, all.len() as int));
        if same_pattern(&rules[i].0, pat) {
            return Some(rules[i].1.clone());
        }
        i = i + 1;
    }
    None
}

/// The rule that the map gives to a source with extension `ext`.
pub fn rule_for(rules: &ExtMap, ext: &Option<String>) -> (r: String)
    ensures
        r@ == rule_of(ext_map_view(rules@), opt_view(*ext)),
{
    let hit = match find_rule(rules, ext) {
        Some(x) => Some(x),
        None => find_rule(rules, &None),
    };
    match hit {
        Some(Some(r)) => r,
        _ => {
            proof {
                reveal_strlit("cc");
            }
            let r = "cc".to_owned();
            assert(r@ =~= default_rule());
            r
        },
    }
}

/// The build line of one source path.
pub fn target_line(path: &str, rules: &ExtMap) -> (r: String)
    ensures
        r@ == line_of(path@, ext_map_view(rules@)),
{
    let name = target_name(path);
    let ext = extension(path);
    let rule = rule_for(rules, &ext);
    let mut line = "build ".to_owned();
    line.append(name.as_str());
    line.append(": ");
    line.append(rule.as_str());
    line.append(" ");
    line.append(path);
    line
}

/// The master line: `build <name>: <rule>` and each input after a space.
pub fn master_line(master: &MasterTarget, inputs: &Vec<String>) -> (r: String)
    ensures
        r@ == master_line_of(master.name@, master.rule@, inputs@.map_values(|s: String| s@)),
{
    let ghost names = inputs@.map_values(|s: String| s@);
    let mut line = "build ".to_owned();
    line.append(master.name.as_str());
    line.append(": ");
    line.append(master.rule.as_str());
    let ghost head = line@;
    let mut i: usize = 0;
    while i < inputs.len()
        invariant
            i <= inputs.len(),
            names == inputs@.map_values(|s: String| s@),
            line@ == head + spaced(names.take(i as int)),
        decreases inputs.len() - i,
    {
        assert(names.take(i + 1).drop_last() =~= names.take(i as int));
        line.append(" ");
        line.append(inputs[i].as_str());
        i = i + 1;
    }
    assert(names.take(inputs.len() as int) =~= names);
    line
}

impl MasterTarget {
    /// A master target named `name`, built by `rule`, or by the default
    /// rule where none is given.
    pub fn new(name: String, rule: Option<String>) -> (r: Self)
        ensures
            r.name@ == name@,
            r.rule@ == match opt_view(rule) {
                Some(x) => x,
                None => default_rule(),
            },
    {
        let rule = match rule {
            Some(x) => x,
            None => {
                proof {
                    reveal_strlit("cc");
                }
                let r = "cc".to_owned();
                assert(r@ =~= default_rule());
                r
            },
        };
        MasterTarget { name, rule }
    }
}

/// The build lines for `files`, one per file in order, then the master
/// line when a master target is given.
pub fn synthesize(files: &Vec<ExpandedPath>, rules: &ExtMap, master: &Option<MasterTarget>) -> (r: Vec<String>)
    ensures
        r@.map_values(|s: String| s@) == lines_of(paths_of(files@), ext_map_view(rules@), master_view(*master)),
{
    let ghost paths = paths_of(files@);
    let ghost rv = ext_map_view(rules@);
    let mut lines: Vec<String> = Vec::new();
    let mut names: Vec<String> = Vec::new();
    let mut i: usize = 0;
    while i < files.len()
        invariant
            i <= files.len(),
            paths == paths_of(files@),
            rv == ext_map_view(rules@),
            lines@.map_values(|s: String| s@) =~= paths.take(i as int).map_values(|p: Seq<char>| line_of(p, rv)),
            names@.map_values(|s: String| s@) =~= paths.take(i as int).map_values(|p: Seq<char>| name_of(p)),
        decreases files.len() - i,
    {
        let path = files[i].path.as_str();
        assert(path@ == paths[i as int]);
        let line = target_line(path, rules);
        let name = target_name(path);
        let ghost prev_lines = lines@;
        let ghost prev_names = names@;
        lines.push(line);
        names.push(name);
        assert(lines@ == prev_lines.push(line));
        assert(names@ == prev_names.push(name));
        assert(lines@.map_values(|s: String| s@) =~= prev_lines.map_values(|s: String| s@).push(line@));
        assert(names@.map_values(|s: String| s@) =~= prev_names.map_values(|s: String| s@).push(name@));
        assert(paths.take(i + 1) =~= paths.take(i as int).push(paths[i as int]));
        i = i + 1;
    }
    assert(paths.take(files.len() as int) =~= paths);
    match master {
        Some(m) => {
            let line = master_line(m, &names);
            let ghost before = lines@;
            lines.push(line);
            assert(lines@ == before.push(line));
            assert(lines@.map_values(|s: String| s@) =~= before.map_values(|s: String| s@).push(line@));
        },
        None => {},
    }
    lines
}

} // verus!
