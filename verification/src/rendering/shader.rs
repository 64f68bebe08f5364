use vstd::prelude::*;

use crate::text::{chars_of, contains, contains_str, spec_join_lines};

verus! {

/// `line` without the carriage return that ends it, if any.
pub open spec fn strip_cr(line: Seq<char>) -> Seq<char> {
    if line.len() > 0 && line.last() == '\r' {
        line.drop_last()
    } else {
        line
    }
}

/// The lines of `s` that a newline ends, and what follows the last newline.
pub open spec fn lines_fold(s: Seq<char>) -> (Seq<Seq<char>>, Seq<char>)
    decreases s.len(),
{
    if s.len() == 0 {
        (Seq::empty(), Seq::empty())
    } else {
        let (done, current) = lines_fold(s.drop_last());
        if s.last() == '\n' {
            (done.push(strip_cr(current)), Seq::empty())
        } else {
            (done, current.push(s.last()))
        }
    }
}

/// The lines of `s` as `str::lines` gives them: split at `\n` or `\r\n`,
/// the last line ending being optional.
pub open spec fn spec_lines(s: Seq<char>) -> Seq<Seq<char>> {
    let (done, current) = lines_fold(s);
    if current.len() == 0 {
        done
    } else {
        done.push(current)
    }
}

/// The lines of `text`, as `str::lines` gives them.
pub fn lines(text: &str) -> (lines: Vec<String>)
    ensures
        lines@.len() == spec_lines(text@).len(),
        forall|i: int| 0 <= i < lines@.len() ==> #[trigger] lines@[i]@ == spec_lines(text@)[i],
{
    let chars = chars_of(text);
    let n = chars.len();
    let mut lines: Vec<String> = Vec::new();
    let mut start: usize = 0;
    let mut i: usize = 0;
    while i < n
        invariant
            n == chars@.len(),
            chars@ == text@,
            start <= i <= n,
            lines_fold(text@.take(i as int)).0.len() == lines@.len(),
            forall|j: int|
                0 <= j < lines@.len() ==> #[trigger] lines@[j]@ == lines_fold(
                    text@.take(i as int),
                ).0[j],
            lines_fold(text@.take(i as int)).1 == text@.subrange(start as int, i as int),
        decreases n - i,
    {
        let ghost before = text@.take(i as int);
        assert(text@.take(i + 1).drop_last() =~= before);
        if chars[i] == '\n' {
            let end = if i > start && chars[i - 1] == '\r' {
                i - 1
            } else {
                i
            };
            let line = text.substring_char(start, end);
            proof {
                let current = text@.subrange(start as int, i as int);
                assert(line@ =~= strip_cr(current));
            }
            lines.push(String::from_str(line));
            start = i + 1;
        }
        i = i + 1;
        proof {
            let now = text@.take(i as int);
            if text@[i - 1] == '\n' {
                assert(text@.subrange(start as int, i as int) =~= Seq::<char>::empty());
            } else {
                assert(text@.subrange(start as int, i as int) =~= text@.subrange(
                    start as int,
                    i - 1,
                ).push(text@[i - 1]));
            }
        }
    }
    assert(text@.take(n as int) =~= text@);
    if start < n {
        let line = text.substring_char(start, n);
        lines.push(String::from_str(line));
    }
    proof {
        let current = text@.subrange(start as int, n as int);
        if start < n {
            assert(current.len() > 0);
        } else {
            assert(current.len() == 0);
        }
    }
    lines
}

/// What the lines read so far and the unfinished last line join back to.
spec fn rejoined(done: Seq<Seq<char>>, current: Seq<char>) -> Seq<char> {
    if done.len() == 0 {
        current
    } else {
        spec_join_lines(done) + "\n"@ + current
    }
}

proof fn lemma_join_push(parts: Seq<Seq<char>>, part: Seq<char>)
    ensures
        spec_join_lines(parts.push(part)) == rejoined(parts, part),
{
    assert(parts.push(part).drop_last() =~= parts);
}

proof fn lemma_lines_fold_rejoins(s: Seq<char>)
    requires
        forall|k: int| 0 <= k < s.len() ==> s[k] != '\r',
    ensures
        rejoined(lines_fold(s).0, lines_fold(s).1) == s,
        forall|k: int| 0 <= k < lines_fold(s).1.len() ==> lines_fold(s).1[k] != '\r',
    decreases s.len(),
{
    if s.len() > 0 {
        let t = s.drop_last();
        let c = s.last();
        lemma_lines_fold_rejoins(t);
        let (done, current) = lines_fold(t);
        assert(t.push(c) =~= s);
        assert(rejoined(done, current) == t);
        if c == '\n' {
            if current.len() > 0 {
                assert(current.last() != '\r');
            }
            assert(strip_cr(current) == current);
            assert(lines_fold(s) == (done.push(current), Seq::<char>::empty()));
            lemma_join_push(done, current);
            reveal_strlit("\n");
            assert(rejoined(done.push(current), Seq::empty()) =~= t.push(c));
        } else {
            assert(lines_fold(s) == (done, current.push(c)));
            if done.len() == 0 {
                assert(rejoined(done, current.push(c)) =~= t.push(c));
            } else {
                assert(rejoined(done, current.push(c)) =~= rejoined(done, current).push(c));
            }
            assert forall|k: int| 0 <= k < current.push(c).len() implies current.push(c)[k]
                != '\r' by {
                if k < current.len() {
                } else {
                    assert(c == s[s.len() - 1]);
                }
            }
        }
    } else {
        assert(lines_fold(s).0 =~= Seq::<Seq<char>>::empty());
        assert(lines_fold(s).1 =~= Seq::<char>::empty());
        assert(s =~= Seq::<char>::empty());
    }
}

/// Joining the lines of a text with newlines gives the text back, when the
/// text holds no carriage return and does not end with a newline.
pub proof fn lemma_join_lines_inverts_lines(s: Seq<char>)
    requires
        forall|k: int| 0 <= k < s.len() ==> s[k] != '\r',
        s.len() > 0 ==> s.last() != '\n',
    ensures
        spec_join_lines(spec_lines(s)) == s,
{
    lemma_lines_fold_rejoins(s);
    let (done, current) = lines_fold(s);
    if current.len() == 0 {
        if done.len() > 0 {
            assert(s == spec_join_lines(done) + "\n"@ + current);
            assert(s.last() == '\n');
        }
    } else {
        lemma_join_push(done, current);
    }
}

/// A stage of a shader program.
#[derive(Debug, Clone, Copy, PartialEq, Eq, Structural)]
pub enum ShaderStage {
    Vertex,
    Fragment,
    Geometry,
}

/// The stage a `#shader` line of a unified shader file starts: the line is
/// `#shader ` followed by `vertex`, `fragment` or `geometry`.
pub open spec fn directive_stage(line: Seq<char>) -> Option<ShaderStage> {
    if line == "#shader vertex"@ {
        Some(ShaderStage::Vertex)
    } else if line == "#shader fragment"@ {
        Some(ShaderStage::Fragment)
    } else if line == "#shader geometry"@ {
        Some(ShaderStage::Geometry)
    } else {
        None
    }
}

/// Every line of a unified shader file that holds `#shader ` names a stage.
pub open spec fn well_formed_unified_shader(text: Seq<char>) -> bool {
    forall|i: int|
        0 <= i < spec_lines(text).len() && #[trigger] contains_str(spec_lines(text)[i], "#shader "@)
            ==> directive_stage(spec_lines(text)[i]) is Some
}

/// The code of each stage after reading the first `n` lines of a unified
/// shader file, and the stage being read: every line goes, with a newline,
/// to the stage of the last `#shader` line above it (the vertex stage
/// before any).
pub open spec fn stages_fold(lines: Seq<Seq<char>>, n: nat) -> (
    Seq<char>,
    Seq<char>,
    Seq<char>,
    ShaderStage,
)
    decreases n,
{
    if n == 0 {
        (Seq::empty(), Seq::empty(), Seq::empty(), ShaderStage::Vertex)
    } else {
        let (vertex, fragment, geometry, stage) = stages_fold(lines, (n - 1) as nat);
        let line = lines[n - 1];
        if contains_str(line, "#shader "@) {
            (vertex, fragment, geometry, directive_stage(line).unwrap())
        } else {
            let code = line + "\n"@;
            match stage {
                ShaderStage::Vertex => (vertex + code, fragment, geometry, stage),
                ShaderStage::Fragment => (vertex, fragment + code, geometry, stage),
                ShaderStage::Geometry => (vertex, fragment, geometry + code, stage),
            }
        }
    }
}

/// The vertex, fragment and geometry code of a unified shader file.
pub open spec fn spec_split_shader(text: Seq<char>) -> (Seq<char>, Seq<char>, Seq<char>) {
    let (vertex, fragment, geometry, _) = stages_fold(spec_lines(text), spec_lines(text).len());
    (vertex, fragment, geometry)
}

/// The stage of the nearest `#shader` line among the first `i` lines, the
/// vertex stage when there is none.
pub open spec fn stage_above(lines: Seq<Seq<char>>, i: nat) -> ShaderStage
    decreases i,
{
    if i == 0 {
        ShaderStage::Vertex
    } else if contains_str(lines[i - 1], "#shader "@) {
        directive_stage(lines[i - 1]).unwrap()
    } else {
        stage_above(lines, (i - 1) as nat)
    }
}

/// The code lines, each with its newline, among the first `n` lines whose
/// nearest `#shader` line above names `stage`, in order.
pub open spec fn code_of_stage(lines: Seq<Seq<char>>, n: nat, stage: ShaderStage) -> Seq<char>
    decreases n,
{
    if n == 0 {
        Seq::empty()
    } else {
        let before = code_of_stage(lines, (n - 1) as nat, stage);
        let line = lines[n - 1];
        if !contains_str(line, "#shader "@) && stage_above(lines, (n - 1) as nat) == stage {
            before + line + "\n"@
        } else {
            before
        }
    }
}

/// Every code line of a unified shader file goes to the stage of the nearest
/// `#shader` line above it (the vertex stage when there is none), and the
/// code of each stage is its lines in file order.
pub proof fn lemma_lines_go_to_nearest_stage(lines: Seq<Seq<char>>, n: nat)
    ensures
        stages_fold(lines, n) == (
            code_of_stage(lines, n, ShaderStage::Vertex),
            code_of_stage(lines, n, ShaderStage::Fragment),
            code_of_stage(lines, n, ShaderStage::Geometry),
            stage_above(lines, n),
        ),
    decreases n,
{
    if n > 0 {
        lemma_lines_go_to_nearest_stage(lines, (n - 1) as nat);
        let line = lines[n - 1];
        let code = line + "\n"@;
        assert(code_of_stage(lines, (n - 1) as nat, ShaderStage::Vertex) + line + "\n"@
            =~= code_of_stage(lines, (n - 1) as nat, ShaderStage::Vertex) + code);
        assert(code_of_stage(lines, (n - 1) as nat, ShaderStage::Fragment) + line + "\n"@
            =~= code_of_stage(lines, (n - 1) as nat, ShaderStage::Fragment) + code);
        assert(code_of_stage(lines, (n - 1) as nat, ShaderStage::Geometry) + line + "\n"@
            =~= code_of_stage(lines, (n - 1) as nat, ShaderStage::Geometry) + code);
    }
}

/// The stage a line starts, if it is a `#shader` line.
fn line_stage(line: &String) -> (stage: Option<ShaderStage>)
    ensures
        stage == directive_stage(line@),
{
    if *line == String::from_str("#shader vertex") {
        Some(ShaderStage::Vertex)
    } else if *line == String::from_str("#shader fragment") {
        Some(ShaderStage::Fragment)
    } else if *line == String::from_str("#shader geometry") {
        Some(ShaderStage::Geometry)
    } else {
        None
    }
}

/// Reads a unified shader file and returns the code of its stages: vertex,
/// fragment and, when the file has any, geometry.
pub fn split_shader_file(shader_code: &str) -> (stages: (String, String, Option<String>))
    requires
        well_formed_unified_shader(shader_code@),
    ensures
        stages.0@ == spec_split_shader(shader_code@).0,
        stages.1@ == spec_split_shader(shader_code@).1,
        match stages.2 {
            Some(geometry) => geometry@ == spec_split_shader(shader_code@).2
                && geometry@.len() > 0,
            None => spec_split_shader(shader_code@).2.len() == 0,
        },
{
    let lines = lines(shader_code);
    let ghost all = spec_lines(shader_code@);
    let mut vertex = String::new();
    let mut fragment = String::new();
    let mut geometry = String::new();
    let mut stage = ShaderStage::Vertex;
    let mut i: usize = 0;
    while i < lines.len()
        invariant
            i <= lines@.len(),
            lines@.len() == all.len(),
            all == spec_lines(shader_code@),
            forall|j: int| 0 <= j < lines@.len() ==> #[trigger] lines@[j]@ == all[j],
            well_formed_unified_shader(shader_code@),
            (vertex@, fragment@, geometry@, stage) == stages_fold(all, i as nat),
        decreases lines@.len() - i,
    {
        let line = &lines[i];
        assert(line@ == all[i as int]);
        if contains(line.as_str(), "#shader ") {
            match line_stage(line) {
                Some(new_stage) => {
                    stage = new_stage;
                },
                None => {
                    assert(false);
                },
            }
        } else {
            match stage {
                ShaderStage::Vertex => {
                    vertex.append(line.as_str());
                    vertex.append("\n");
                },
                ShaderStage::Fragment => {
                    fragment.append(line.as_str());
                    fragment.append("\n");
                },
                ShaderStage::Geometry => {
                    geometry.append(line.as_str());
                    geometry.append("\n");
                },
            }
        }
        i = i + 1;
        proof {
            let prev = stages_fold(all, (i - 1) as nat);
            let now = stages_fold(all, i as nat);
            assert(now.0 =~= vertex@);
            assert(now.1 =~= fragment@);
            assert(now.2 =~= geometry@);
        }
    }
    if geometry.unicode_len() == 0 {
        (vertex, fragment, None)
    } else {
        (vertex, fragment, Some(geometry))
    }
}

/// A line of shader code after looking for `#include` directives.
#[derive(Debug, PartialEq, Eq)]
pub enum ShaderLine {
    /// A line kept as it is.
    Code(String),
    /// A line replaced by the contents of a file; `relative` tells whether
    /// the path is relative to the directory of the including file (it was
    /// written `"./..."`) rather than to the working directory.
    Include { path: String, relative: bool },
}

/// A character of the ASCII range, one byte in UTF-8.
pub open spec fn is_ascii_char(c: char) -> bool {
    (c as u32) < 128
}

/// The characters `0..n` of `line` are ASCII, so character and byte offsets
/// agree up to there.
pub open spec fn ascii_prefix(line: Seq<char>, n: int) -> bool {
    n <= line.len() && forall|k: int| 0 <= k < n ==> is_ascii_char(#[trigger] line[k])
}

/// A line holding `#include ` is read as `#include "<path>"`: the first ten
/// characters and the last one are dropped, and a path starting with `.` is
/// read as `./<path>`, relative to the including file. The shader loader
/// slices these offsets as byte offsets; they agree with character offsets
/// when the dropped prefix and the last character are ASCII.
pub open spec fn include_line_readable(line: Seq<char>) -> bool {
    &&& line.len() >= 11
    &&& ascii_prefix(line, 10)
    &&& is_ascii_char(line.last())
    &&& (line.len() > 11 && line[10] == '.') ==> line.len() >= 13 && ascii_prefix(line, 12)
}

/// What a line of shader code becomes.
pub open spec fn spec_shader_line(line: Seq<char>) -> (Seq<char>, Option<bool>) {
    if contains_str(line, "#include "@) {
        if line.len() > 11 && line[10] == '.' {
            (line.subrange(12, line.len() - 1), Some(true))
        } else {
            (line.subrange(10, line.len() - 1), Some(false))
        }
    } else {
        (line, None)
    }
}

/// `line` is read as `shader_line`.
pub open spec fn shader_line_matches(shader_line: ShaderLine, line: Seq<char>) -> bool {
    match shader_line {
        ShaderLine::Code(code) => spec_shader_line(line) == (code@, None::<bool>),
        ShaderLine::Include { path, relative } => spec_shader_line(line) == (path@, Some(relative)),
    }
}

/// The lines of a shader, each kept or replaced by the file it includes.
pub fn include_directives(shader_code: &str) -> (shader_lines: Vec<ShaderLine>)
    requires
        forall|i: int|
            0 <= i < spec_lines(shader_code@).len() && #[trigger] contains_str(
                spec_lines(shader_code@)[i],
                "#include "@,
            ) ==> include_line_readable(spec_lines(shader_code@)[i]),
    ensures
        shader_lines@.len() == spec_lines(shader_code@).len(),
        forall|i: int|
            0 <= i < shader_lines@.len() ==> shader_line_matches(
                #[trigger] shader_lines@[i],
                spec_lines(shader_code@)[i],
            ),
{
    let lines = lines(shader_code);
    let ghost all = spec_lines(shader_code@);
    let mut shader_lines: Vec<ShaderLine> = Vec::new();
    let mut i: usize = 0;
    while i < lines.len()
        invariant
            i <= lines@.len(),
            lines@.len() == all.len(),
            all == spec_lines(shader_code@),
            forall|j: int| 0 <= j < lines@.len() ==> #[trigger] lines@[j]@ == all[j],
            forall|j: int|
                0 <= j < all.len() && #[trigger] contains_str(all[j], "#include "@)
                    ==> include_line_readable(all[j]),
            shader_lines@.len() == i,
            forall|j: int|
                0 <= j < i ==> shader_line_matches(#[trigger] shader_lines@[j], all[j]),
        decreases lines@.len() - i,
    {
        let line = lines[i].as_str();
        assert(line@ == all[i as int]);
        if contains(line, "#include ") {
            let n = line.unicode_len();
            let relative = n > 11 && line.get_char(10) == '.';
            let path = if relative {
                line.substring_char(12, n - 1)
            } else {
                line.substring_char(10, n - 1)
            };
            shader_lines.push(ShaderLine::Include { path: String::from_str(path), relative });
        } else {
            shader_lines.push(ShaderLine::Code(String::from_str(line)));
        }
        i = i + 1;
    }
    shader_lines
}

} // verus!
