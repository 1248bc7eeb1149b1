use vstd::prelude::*;
use vstd::utf8::encode_utf8;

use crate::entities::{CodeEntity, EntityType};
use crate::memory::reversed;
use crate::relationships::Relationship;
use crate::text::{extension_of, lines_of, path_extension, same_text, split_lines};

verus! {

#[verifier::external_type_specification]
#[verifier::external_body]
pub struct ExRegex(regex::Regex);

#[verifier::external_type_specification]
#[verifier::external_body]
pub struct ExRegexError(regex::Error);

/// Line patterns of the brace-syntax family; group 1 is the name.
pub const JS_FUNCTION: &'static str = r"(?m)^(?:export\s+)?(?:async\s+)?function\s+(\w+)\s*\(";
pub const JS_CLASS: &'static str = r"(?m)^(?:export\s+)?class\s+(\w+)";
pub const JS_IMPORT: &'static str = r#"(?m)^import\s+.*?from\s+['"]([^'"]+)['"]"#;
pub const JS_VARIABLE: &'static str = r"(?m)^(?:const|let|var)\s+(\w+)";
/// Line patterns of the indentation-syntax family; the import pattern
/// captures the `from` module (optional) and the imported symbol.
pub const PY_FUNCTION: &'static str = r"(?m)^def\s+(\w+)\s*\(";
pub const PY_CLASS: &'static str = r"(?m)^class\s+(\w+)";
pub const PY_IMPORT: &'static str = r"(?m)^(?:from\s+(\S+)\s+)?import\s+(\S+)";
/// Line patterns of the systems-syntax family; group 1 is the name, or the
/// implemented type for `impl` blocks, or the used path.
pub const RUST_FUNCTION: &'static str = r"(?m)^\s*(?:pub\s+)?(?:async\s+)?fn\s+(\w+)";
pub const RUST_STRUCT: &'static str = r"(?m)^\s*(?:pub\s+)?struct\s+(\w+)";
pub const RUST_IMPL: &'static str = r"(?m)^\s*impl(?:<[^>]*>)?\s+(?:\w+\s+for\s+)?(\w+)";
pub const RUST_TRAIT: &'static str = r"(?m)^\s*(?:pub\s+)?trait\s+(\w+)";
pub const RUST_ENUM: &'static str = r"(?m)^\s*(?:pub\s+)?enum\s+(\w+)";
pub const RUST_USE: &'static str = r"(?m)^\s*use\s+([^;]+);";
pub const RUST_MOD: &'static str = r"(?m)^\s*(?:pub\s+)?mod\s+(\w+)";
pub const RUST_CONST: &'static str = r"(?m)^\s*(?:pub\s+)?const\s+(\w+)";

/// The first two capture groups of the leftmost match of `pattern` in `line`,
/// or `None` where the pattern does not match.
pub uninterp spec fn regex_groups(pattern: Seq<char>, line: Seq<char>) -> Option<
    (Option<Seq<char>>, Option<Seq<char>>),
>;

/// The characters of an optional string.
pub open spec fn opt_view(o: Option<String>) -> Option<Seq<char>> {
    match o {
        Some(s) => Some(s@),
        None => None,
    }
}

/// The first capture group of `pattern` on `line`, where it matches.
pub open spec fn first_group(pattern: Seq<char>, line: Seq<char>) -> Option<Seq<char>> {
    match regex_groups(pattern, line) {
        Some((g, _)) => g,
        None => None,
    }
}

/// Every line pattern of every family compiles.
pub open spec fn all_patterns_compile() -> bool {
        &&& regex_compiles(JS_FUNCTION@)
        &&& regex_compiles(JS_CLASS@)
        &&& regex_compiles(JS_IMPORT@)
        &&& regex_compiles(JS_VARIABLE@)
        &&& regex_compiles(PY_FUNCTION@)
        &&& regex_compiles(PY_CLASS@)
        &&& regex_compiles(PY_IMPORT@)
        &&& regex_compiles(RUST_FUNCTION@)
        &&& regex_compiles(RUST_STRUCT@)
        &&& regex_compiles(RUST_IMPL@)
        &&& regex_compiles(RUST_TRAIT@)
        &&& regex_compiles(RUST_ENUM@)
        &&& regex_compiles(RUST_USE@)
        &&& regex_compiles(RUST_MOD@)
        &&& regex_compiles(RUST_CONST@)
}

/// A compiled line pattern together with the text it was compiled from.
pub struct Matcher {
    source: String,
    re: regex::Regex,
}

impl Matcher {
    pub closed spec fn source(&self) -> Seq<char> {
        self.source@
    }
}

/// Whether `pattern` is a well-formed regular expression that the regex
/// engine accepts.
pub uninterp spec fn regex_compiles(pattern: Seq<char>) -> bool;

/// Relies on regex::Regex::new: compiles a pattern, failing on malformed
/// syntax; the outcome depends on the pattern alone.
#[verifier::external_body]
fn compile_regex(pattern: &str) -> (r: Result<regex::Regex, regex::Error>)
    ensures
        r is Ok <==> regex_compiles(pattern@),
{
    regex::Regex::new(pattern)
}

/// Relies on regex::Regex::captures (and Captures::get): the first two groups
/// of the leftmost match of the matcher's pattern; a matcher's regex is only
/// ever compiled from its `source`.
#[verifier::external_body]
fn capture_groups(m: &Matcher, line: &str) -> (r: Option<(Option<String>, Option<String>)>)
    ensures
        match r {
            Some((a, b)) => regex_groups(m.source(), line@) == Some((opt_view(a), opt_view(b))),
            None => regex_groups(m.source(), line@) is None,
        },
{
    m.re.captures(line).map(
        |c| (c.get(1).map(|g| g.as_str().to_string()), c.get(2).map(|g| g.as_str().to_string())),
    )
}

/// A line pattern that failed to compile.
#[derive(Debug)]
pub struct PatternError {
    pub pattern: String,
}

impl Matcher {
    fn compile(pattern: &str) -> (r: Result<Matcher, PatternError>)
        ensures
            match r {
                Ok(m) => m.source() == pattern@,
                Err(e) => e.pattern@ == pattern@,
            },
            r is Ok <==> regex_compiles(pattern@),
    {
        match compile_regex(pattern) {
            Ok(re) => Ok(Matcher { source: pattern.to_owned(), re }),
            Err(_) => Err(PatternError { pattern: pattern.to_owned() }),
        }
    }

    fn groups(&self, line: &str) -> (r: Option<(Option<String>, Option<String>)>)
        ensures
            match r {
                Some((a, b)) => regex_groups(self.source(), line@) == Some((opt_view(a), opt_view(b))),
                None => regex_groups(self.source(), line@) is None,
            },
    {
        capture_groups(self, line)
    }

    fn first(&self, line: &str) -> (r: Option<String>)
        ensures
            opt_view(r) == first_group(self.source(), line@),
    {
        match self.groups(line) {
            Some((g, _)) => g,
            None => None,
        }
    }
}

/// The language families the scanner knows, chosen by file extension.
#[derive(Debug, Clone, Copy, PartialEq, Eq, Structural)]
pub enum SyntaxFamily {
    /// JavaScript and TypeScript.
    Brace,
    /// Python.
    Indentation,
    /// Rust.
    Systems,
}

/// The family that scans files with extension `e`.
pub open spec fn family_of(e: Seq<char>) -> Option<SyntaxFamily> {
    if e == "js"@ || e == "jsx"@ || e == "ts"@ || e == "tsx"@ {
        Some(SyntaxFamily::Brace)
    } else if e == "py"@ {
        Some(SyntaxFamily::Indentation)
    } else if e == "rs"@ {
        Some(SyntaxFamily::Systems)
    } else {
        None
    }
}

/// What a scanner emits for one match: name, kind, 1-based line number and the
/// line's width in bytes.
pub type Draft = (Seq<char>, EntityType, u32, u32);

/// One draft for a capture, none for a miss.
pub open spec fn found(c: Option<Seq<char>>, kind: EntityType, n: u32, w: u32) -> Seq<Draft> {
    match c {
        Some(x) => seq![(x, kind, n, w)],
        None => Seq::empty(),
    }
}

/// The name of an implementation block for the type `c`.
pub open spec fn impl_label(c: Option<Seq<char>>) -> Option<Seq<char>> {
    match c {
        Some(x) => Some("impl "@ + x),
        None => None,
    }
}

/// The name of a Python import: `module.symbol` with a `from` clause, else the
/// symbol alone.
pub open spec fn py_import_label(g: Option<(Option<Seq<char>>, Option<Seq<char>>)>) -> Option<
    Seq<char>,
> {
    match g {
        Some((Some(m), Some(x))) => Some(m + "."@ + x),
        Some((None, Some(x))) => Some(x),
        _ => None,
    }
}

/// The kinds that the matchers of family `f` emit, in matcher order.
pub open spec fn family_kinds(f: SyntaxFamily) -> Seq<EntityType> {
    match f {
        SyntaxFamily::Brace => seq![EntityType::Function, EntityType::Class, EntityType::Import, EntityType::Variable],
        SyntaxFamily::Indentation => seq![EntityType::Function, EntityType::Class, EntityType::Import],
        SyntaxFamily::Systems => seq![EntityType::Function, EntityType::Class, EntityType::Class, EntityType::Class, EntityType::Import, EntityType::Module, EntityType::Variable, EntityType::Class],
    }
}

/// What each matcher of family `f` names on line `l`, in matcher order.
pub open spec fn line_names(f: SyntaxFamily, l: Seq<char>) -> Seq<Option<Seq<char>>> {
    match f {
        SyntaxFamily::Brace => seq![
            first_group(JS_FUNCTION@, l),
            first_group(JS_CLASS@, l),
            first_group(JS_IMPORT@, l),
            first_group(JS_VARIABLE@, l),
        ],
        SyntaxFamily::Indentation => seq![
            first_group(PY_FUNCTION@, l),
            first_group(PY_CLASS@, l),
            py_import_label(regex_groups(PY_IMPORT@, l)),
        ],
        SyntaxFamily::Systems => seq![
            first_group(RUST_FUNCTION@, l),
            first_group(RUST_STRUCT@, l),
            first_group(RUST_TRAIT@, l),
            first_group(RUST_ENUM@, l),
            first_group(RUST_USE@, l),
            first_group(RUST_MOD@, l),
            first_group(RUST_CONST@, l),
            impl_label(first_group(RUST_IMPL@, l)),
        ],
    }
}

/// One draft for each present name, with the kind at the same position.
pub open spec fn names_drafts(names: Seq<Option<Seq<char>>>, kinds: Seq<EntityType>, n: u32, w: u32) -> Seq<
    Draft,
>
    decreases names.len(),
{
    if names.len() == 0 || kinds.len() == 0 {
        Seq::empty()
    } else {
        names_drafts(names.drop_last(), kinds.drop_last(), n, w) + found(names.last(), kinds.last(), n, w)
    }
}

/// Everything the scanner of family `f` emits for line number `n` with text
/// `l` and width `w`, in emission order.
pub open spec fn line_drafts(f: SyntaxFamily, l: Seq<char>, n: u32, w: u32) -> Seq<Draft> {
    names_drafts(line_names(f, l), family_kinds(f), n, w)
}

/// The width of a line in bytes, as a position field holds it.
pub open spec fn line_width(l: Seq<char>) -> u32 {
    encode_utf8(l).len() as usize as u32
}

/// Everything the scanner of family `f` emits for the lines `ls`, numbered
/// from 1.
pub open spec fn file_drafts(f: SyntaxFamily, ls: Seq<Seq<char>>) -> Seq<Draft>
    decreases ls.len(),
{
    if ls.len() == 0 {
        Seq::empty()
    } else {
        file_drafts(f, ls.drop_last()) + line_drafts(f, ls.last(), ls.len() as u32, line_width(ls.last()))
    }
}

/// `e` is a fresh, metadata-free entity of file `file` placed as `d` says.
pub open spec fn placed(e: CodeEntity, d: Draft, file: Seq<char>) -> bool {
    &&& e.wf()
    &&& e.metadata@.len() == 0
    &&& e.name@ == d.0
    &&& e.entity_type == d.1
    &&& e.file_path@ == file
    &&& e.line_start == d.2
    &&& e.line_end == d.2
    &&& e.column_start == 0
    &&& e.column_end == d.3
}

/// `es` holds the drafts `ds`, one entity each, in order.
pub open spec fn holds_drafts(es: Seq<CodeEntity>, ds: Seq<Draft>, file: Seq<char>) -> bool {
    es.len() == ds.len() && forall|i: int| 0 <= i < es.len() ==> placed(#[trigger] es[i], ds[i], file)
}

proof fn lemma_extend(
    a: Seq<CodeEntity>,
    b: Seq<CodeEntity>,
    c: Seq<CodeEntity>,
    d1: Seq<Draft>,
    d2: Seq<Draft>,
    file: Seq<char>,
)
    requires
        a.len() <= b.len() <= c.len(),
        b.subrange(0, a.len() as int) == a,
        holds_drafts(b.subrange(a.len() as int, b.len() as int), d1, file),
        c.subrange(0, b.len() as int) == b,
        holds_drafts(c.subrange(b.len() as int, c.len() as int), d2, file),
    ensures
        c.subrange(0, a.len() as int) == a,
        holds_drafts(c.subrange(a.len() as int, c.len() as int), d1 + d2, file),
{
    let x = c.subrange(a.len() as int, c.len() as int);
    let d = d1 + d2;
    assert(c.subrange(0, a.len() as int) =~= b.subrange(0, a.len() as int));
    assert forall|i: int| 0 <= i < x.len() implies placed(#[trigger] x[i], d[i], file) by {
        if i < d1.len() {
            assert(x[i] == b.subrange(a.len() as int, b.len() as int)[i]);
        } else {
            assert(x[i] == c.subrange(b.len() as int, c.len() as int)[i - d1.len()]);
        }
    }
}

/// Appends an entity for `capture`, if there is one, positioned on line
/// `line_number` with width `width`.
pub fn emit(
    out: &mut Vec<CodeEntity>,
    capture: Option<String>,
    kind: EntityType,
    file_path: &str,
    line_number: u32,
    width: u32,
)
    ensures
        final(out)@.len() == old(out)@.len() + found(opt_view(capture), kind, line_number, width).len(),
        final(out)@.subrange(0, old(out)@.len() as int) == old(out)@,
        holds_drafts(
            final(out)@.subrange(old(out)@.len() as int, final(out)@.len() as int),
            found(opt_view(capture), kind, line_number, width),
            file_path@,
        ),
{
    match capture {
        Some(name) => {
            let e = CodeEntity::new(name, kind, file_path.to_owned(), line_number, line_number, 0, width);
            out.push(e);
            assert(out@.subrange(old(out)@.len() as int, out@.len() as int) =~= seq![e]);
        },
        None => {
            assert(out@.subrange(0, out@.len() as int) =~= out@);
        },
    }
}

/// The name of an implementation block for the captured type, if any.
pub fn impl_name(capture: Option<String>) -> (r: Option<String>)
    ensures
        opt_view(r) == impl_label(opt_view(capture)),
{
    match capture {
        Some(t) => {
            let mut name = String::from_str("impl ");
            name.append(t.as_str());
            Some(name)
        },
        None => None,
    }
}

/// The name of a Python import from the `from` and `import` groups of a match.
pub fn python_import_name(groups: Option<(Option<String>, Option<String>)>) -> (r: Option<String>)
    ensures
        opt_view(r) == py_import_label(
            match groups {
                Some((a, b)) => Some((opt_view(a), opt_view(b))),
                None => None,
            },
        ),
{
    match groups {
        Some((Some(m), Some(x))) => {
            let mut name = m;
            name.append(".");
            name.append(x.as_str());
            Some(name)
        },
        Some((None, Some(x))) => Some(x),
        _ => None,
    }
}

/// The kinds that the matchers of family `f` emit, in matcher order.
pub fn kinds_of_family(f: SyntaxFamily) -> (r: Vec<EntityType>)
    ensures
        r@ == family_kinds(f),
{
    let r = match f {
            SyntaxFamily::Brace => vec![EntityType::Function, EntityType::Class, EntityType::Import, EntityType::Variable],
            SyntaxFamily::Indentation => vec![EntityType::Function, EntityType::Class, EntityType::Import],
            SyntaxFamily::Systems => vec![EntityType::Function, EntityType::Class, EntityType::Class, EntityType::Class, EntityType::Import, EntityType::Module, EntityType::Variable, EntityType::Class],
    };
    assert(r@ =~= family_kinds(f));
    r
}

/// The entities of one line from what each matcher of family `f` named on it
/// (`names`, in matcher order), positioned on line `n` with width `w`.
pub fn line_entities(f: SyntaxFamily, names: Vec<Option<String>>, file_path: &str, n: u32, w: u32) -> (r:
    Vec<CodeEntity>)
    requires
        names@.len() == family_kinds(f).len(),
    ensures
        holds_drafts(
            r@,
            names_drafts(names@.map_values(|o: Option<String>| opt_view(o)), family_kinds(f), n, w),
            file_path@,
        ),
{
    let kinds = kinds_of_family(f);
    let ghost nv = names@.map_values(|o: Option<String>| opt_view(o));
    let ghost ks = family_kinds(f);
    let ghost count = names@.len();
    let ghost orig = names@;
    let total = kinds.len();
    let mut rev = reversed(names);
    let mut out: Vec<CodeEntity> = Vec::new();
    while rev.len() > 0
        invariant
            kinds@ == ks,
            total == count,
            count == ks.len(),
            nv.len() == count,
            orig.len() == count,
            forall|k: int| 0 <= k < count ==> nv[k] == opt_view(#[trigger] orig[k]),
            rev@.len() <= count,
            forall|k: int| 0 <= k < rev@.len() ==> #[trigger] rev@[k] == orig[count - 1 - k],
            holds_drafts(
                out@,
                names_drafts(nv.take(count - rev@.len()), ks.take(count - rev@.len()), n, w),
                file_path@,
            ),
        decreases rev@.len(),
    {
        let ghost i = count - rev@.len();
        let name = rev.pop().unwrap();
        let kind = kinds[total - 1 - rev.len()];
        let ghost before = out@;
        emit(&mut out, name, kind, file_path, n, w);
        proof {
            assert(name == orig[i]);
            assert(kind == ks[i]);
            assert(nv.take(i + 1).drop_last() =~= nv.take(i));
            assert(ks.take(i + 1).drop_last() =~= ks.take(i));
            assert(nv.take(i + 1).last() == nv[i]);
            assert(ks.take(i + 1).last() == ks[i]);
            assert(before.subrange(0, 0) =~= Seq::<CodeEntity>::empty());
            assert(before.subrange(0, before.len() as int) =~= before);
            lemma_extend(
                Seq::empty(),
                before,
                out@,
                names_drafts(nv.take(i), ks.take(i), n, w),
                found(nv[i], ks[i], n, w),
                file_path@,
            );
            assert(out@.subrange(0, out@.len() as int) =~= out@);
        }
    }
    assert(nv.take(count as int) =~= nv);
    assert(ks.take(count as int) =~= ks);
    out
}

/// The family that scans files with extension `ext`.
pub fn family_for_extension(ext: &str) -> (r: Option<SyntaxFamily>)
    ensures
        r == family_of(ext@),
{
    if same_text(ext, "js") || same_text(ext, "jsx") || same_text(ext, "ts") || same_text(ext, "tsx") {
        Some(SyntaxFamily::Brace)
    } else if same_text(ext, "py") {
        Some(SyntaxFamily::Indentation)
    } else if same_text(ext, "rs") {
        Some(SyntaxFamily::Systems)
    } else {
        None
    }
}

/// The line scanner: one compiled matcher per pattern of each family.
pub struct CodeParser {
    js_function: Matcher,
    js_class: Matcher,
    js_import: Matcher,
    js_variable: Matcher,
    py_function: Matcher,
    py_class: Matcher,
    py_import: Matcher,
    rust_function: Matcher,
    rust_struct: Matcher,
    rust_impl: Matcher,
    rust_trait: Matcher,
    rust_enum: Matcher,
    rust_use: Matcher,
    rust_mod: Matcher,
    rust_const: Matcher,
}

impl CodeParser {
    /// Each matcher was compiled from its fixed pattern.
    pub closed spec fn wf(&self) -> bool {
        &&& self.js_function.source() == JS_FUNCTION@
        &&& self.js_class.source() == JS_CLASS@
        &&& self.js_import.source() == JS_IMPORT@
        &&& self.js_variable.source() == JS_VARIABLE@
        &&& self.py_function.source() == PY_FUNCTION@
        &&& self.py_class.source() == PY_CLASS@
        &&& self.py_import.source() == PY_IMPORT@
        &&& self.rust_function.source() == RUST_FUNCTION@
        &&& self.rust_struct.source() == RUST_STRUCT@
        &&& self.rust_impl.source() == RUST_IMPL@
        &&& self.rust_trait.source() == RUST_TRAIT@
        &&& self.rust_enum.source() == RUST_ENUM@
        &&& self.rust_use.source() == RUST_USE@
        &&& self.rust_mod.source() == RUST_MOD@
        &&& self.rust_const.source() == RUST_CONST@
    }

    /// Compiles every pattern; fails, naming the first pattern that does not
    /// compile, exactly when some pattern is malformed.
    pub fn new() -> (r: Result<CodeParser, PatternError>)
        ensures
            r is Ok <==> all_patterns_compile(),
            match r {
                Ok(p) => p.wf(),
                Err(e) => !regex_compiles(e.pattern@) && (e.pattern@ == JS_FUNCTION@ || e.pattern@ == JS_CLASS@ || e.pattern@ == JS_IMPORT@ || e.pattern@ == JS_VARIABLE@ || e.pattern@ == PY_FUNCTION@ || e.pattern@ == PY_CLASS@ || e.pattern@ == PY_IMPORT@ || e.pattern@ == RUST_FUNCTION@ || e.pattern@ == RUST_STRUCT@ || e.pattern@ == RUST_IMPL@ || e.pattern@ == RUST_TRAIT@ || e.pattern@ == RUST_ENUM@ || e.pattern@ == RUST_USE@ || e.pattern@ == RUST_MOD@ || e.pattern@ == RUST_CONST@),
            },
    {
        let js_function = Matcher::compile(JS_FUNCTION)?;
        let js_class = Matcher::compile(JS_CLASS)?;
        let js_import = Matcher::compile(JS_IMPORT)?;
        let js_variable = Matcher::compile(JS_VARIABLE)?;
        let py_function = Matcher::compile(PY_FUNCTION)?;
        let py_class = Matcher::compile(PY_CLASS)?;
        let py_import = Matcher::compile(PY_IMPORT)?;
        let rust_function = Matcher::compile(RUST_FUNCTION)?;
        let rust_struct = Matcher::compile(RUST_STRUCT)?;
        let rust_impl = Matcher::compile(RUST_IMPL)?;
        let rust_trait = Matcher::compile(RUST_TRAIT)?;
        let rust_enum = Matcher::compile(RUST_ENUM)?;
        let rust_use = Matcher::compile(RUST_USE)?;
        let rust_mod = Matcher::compile(RUST_MOD)?;
        let rust_const = Matcher::compile(RUST_CONST)?;
        Ok(CodeParser {
            js_function,
            js_class,
            js_import,
            js_variable,
            py_function,
            py_class,
            py_import,
            rust_function,
            rust_struct,
            rust_impl,
            rust_trait,
            rust_enum,
            rust_use,
            rust_mod,
            rust_const,
        })
    }
    /// What each matcher of family `f` names on `line`, in matcher order.
    fn names_on_line(&self, f: SyntaxFamily, line: &str) -> (r: Vec<Option<String>>)
        requires
            self.wf(),
        ensures
            r@.map_values(|o: Option<String>| opt_view(o)) == line_names(f, line@),
            r@.len() == family_kinds(f).len(),
    {
        let r = match f {
            SyntaxFamily::Brace => vec![
                self.js_function.first(line),
                self.js_class.first(line),
                self.js_import.first(line),
                self.js_variable.first(line),
            ],
            SyntaxFamily::Indentation => vec![
                self.py_function.first(line),
                self.py_class.first(line),
                python_import_name(self.py_import.groups(line)),
            ],
            SyntaxFamily::Systems => vec![
                self.rust_function.first(line),
                self.rust_struct.first(line),
                self.rust_trait.first(line),
                self.rust_enum.first(line),
                self.rust_use.first(line),
                self.rust_mod.first(line),
                self.rust_const.first(line),
                impl_name(self.rust_impl.first(line)),
            ],
        };
        assert(r@.map_values(|o: Option<String>| opt_view(o)) =~= line_names(f, line@));
        r
    }

    /// Scans `content` line by line with the matchers of family `f`.
    fn scan(&self, f: SyntaxFamily, content: &str, file_path: &str) -> (r: Vec<CodeEntity>)
        requires
            self.wf(),
            lines_of(content@).len() < u32::MAX,
        ensures
            holds_drafts(r@, file_drafts(f, lines_of(content@)), file_path@),
    {
        let lines = split_lines(content);
        let ghost ls = lines_of(content@);
        assert(lines@.len() == ls.len());
        let mut out: Vec<CodeEntity> = Vec::new();
        let mut i: usize = 0;
        while i < lines.len()
            invariant
                self.wf(),
                lines@.map_values(|l: String| l@) == ls,
                ls.len() < u32::MAX,
                i <= lines@.len(),
                holds_drafts(out@, file_drafts(f, ls.take(i as int)), file_path@),
            decreases lines@.len() - i,
        {
            let line = lines[i].as_str();
            assert(line@ == ls[i as int]);
            let n = (i + 1) as u32;
            let w = #[verifier::truncate] (line.len() as u32);
            let ghost before = out@;
            let mut part = line_entities(f, self.names_on_line(f, line), file_path, n, w);
            let ghost found_here = part@;
            out.append(&mut part);
            proof {
                assert(out@.subrange(0, before.len() as int) =~= before);
                assert(out@.subrange(before.len() as int, out@.len() as int) =~= found_here);
                let t = ls.take(i + 1);
                assert(t.drop_last() =~= ls.take(i as int));
                assert(t.last() == ls[i as int]);
                assert(before.subrange(0, 0) =~= Seq::<CodeEntity>::empty());
                assert(before.subrange(0, before.len() as int) =~= before);
                lemma_extend(
                    Seq::empty(),
                    before,
                    out@,
                    file_drafts(f, ls.take(i as int)),
                    line_drafts(f, line@, n, w),
                    file_path@,
                );
                assert(out@.subrange(0, out@.len() as int) =~= out@);
            }
            i = i + 1;
        }
        assert(ls.take(lines@.len() as int) =~= ls);
        out
    }

    /// The entities of a JavaScript or TypeScript source.
    pub fn parse_javascript_like(&self, content: &str, file_path: &str) -> (r: (
        Vec<CodeEntity>,
        Vec<Relationship>,
    ))
        requires
            self.wf(),
            lines_of(content@).len() < u32::MAX,
        ensures
            holds_drafts(r.0@, file_drafts(SyntaxFamily::Brace, lines_of(content@)), file_path@),
            r.1@.len() == 0,
    {
        (self.scan(SyntaxFamily::Brace, content, file_path), Vec::new())
    }

    /// The entities of a Python source.
    pub fn parse_python(&self, content: &str, file_path: &str) -> (r: (
        Vec<CodeEntity>,
        Vec<Relationship>,
    ))
        requires
            self.wf(),
            lines_of(content@).len() < u32::MAX,
        ensures
            holds_drafts(r.0@, file_drafts(SyntaxFamily::Indentation, lines_of(content@)), file_path@),
            r.1@.len() == 0,
    {
        (self.scan(SyntaxFamily::Indentation, content, file_path), Vec::new())
    }

    /// The entities of a Rust source.
    pub fn parse_rust(&self, content: &str, file_path: &str) -> (r: (
        Vec<CodeEntity>,
        Vec<Relationship>,
    ))
        requires
            self.wf(),
            lines_of(content@).len() < u32::MAX,
        ensures
            holds_drafts(r.0@, file_drafts(SyntaxFamily::Systems, lines_of(content@)), file_path@),
            r.1@.len() == 0,
    {
        (self.scan(SyntaxFamily::Systems, content, file_path), Vec::new())
    }

    /// The entities of the file at `file_path` whose text is `content`, found
    /// by the family that the path's extension selects; none for an extension
    /// no family handles. No relationships are ever extracted.
    pub fn parse_file(&self, file_path: &str, content: &str) -> (r: (
        Vec<CodeEntity>,
        Vec<Relationship>,
    ))
        requires
            self.wf(),
            lines_of(content@).len() < u32::MAX,
        ensures
            match extension_of(file_path@) {
                Some(e) => match family_of(e) {
                    Some(f) => holds_drafts(r.0@, file_drafts(f, lines_of(content@)), file_path@),
                    None => r.0@.len() == 0,
                },
                None => r.0@.len() == 0,
            },
            r.1@.len() == 0,
    {
        let family = match path_extension(file_path) {
            Some(e) => family_for_extension(e.as_str()),
            None => None,
        };
        match family {
            Some(SyntaxFamily::Brace) => self.parse_javascript_like(content, file_path),
            Some(SyntaxFamily::Indentation) => self.parse_python(content, file_path),
            Some(SyntaxFamily::Systems) => self.parse_rust(content, file_path),
            None => (Vec::new(), Vec::new()),
        }
    }
}

} // verus!
