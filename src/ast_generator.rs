use vstd::prelude::*;
use crate::interpreter::push_char;
use crate::scanner::chars_of;

verus! {

pub open spec fn index_of(s: Seq<char>, c: char, i: int) -> Option<int>
    decreases s.len() - i,
{
    if i < 0 || i >= s.len() {
        None
    } else if s[i] == c {
        Some(i)
    } else {
        index_of(s, c, i + 1)
    }
}

pub proof fn lemma_index_of(s: Seq<char>, c: char, i: int)
    ensures
        index_of(s, c, i) matches Some(j) ==> 0 <= i <= j < s.len() && s[j] == c,
    decreases s.len() - i,
{
    if 0 <= i < s.len() && s[i] != c {
        lemma_index_of(s, c, i + 1);
    }
}

/// The text before and after the first `c`.
pub open spec fn split_once(s: Seq<char>, c: char) -> Option<(Seq<char>, Seq<char>)> {
    match index_of(s, c, 0) {
        Some(j) => Some((s.subrange(0, j), s.subrange(j + 1, s.len() as int))),
        None => None,
    }
}

/// The pieces between the occurrences of `c`.
pub open spec fn split_all(s: Seq<char>, c: char) -> Seq<Seq<char>>
    decreases s.len(),
{
    match index_of(s, c, 0) {
        Some(j) => {
            if 0 <= j < s.len() {
                seq![s.subrange(0, j)] + split_all(s.subrange(j + 1, s.len() as int), c)
            } else {
                seq![s]
            }
        },
        None => seq![s],
    }
}

pub open spec fn is_space(c: char) -> bool {
    c == ' ' || c == '\t' || c == '\n' || c == '\r'
}

pub open spec fn trim_start(s: Seq<char>) -> Seq<char>
    decreases s.len(),
{
    if s.len() > 0 && is_space(s[0]) {
        trim_start(s.drop_first())
    } else {
        s
    }
}

pub open spec fn trim_end(s: Seq<char>) -> Seq<char>
    decreases s.len(),
{
    if s.len() > 0 && is_space(s.last()) {
        trim_end(s.drop_last())
    } else {
        s
    }
}

/// The text without surrounding white space.
pub open spec fn trim(s: Seq<char>) -> Seq<char> {
    trim_end(trim_start(s))
}

/// A field written `Type name` becomes `name: Type`.
pub open spec fn field_text(f: Seq<char>) -> Option<Seq<char>> {
    match split_once(trim(f), ' ') {
        Some((ty, name)) => Some(name + ": "@ + ty),
        None => None,
    }
}

pub open spec fn field_lines(fields: Seq<Seq<char>>) -> Option<Seq<char>>
    decreases fields.len(),
{
    if fields.len() == 0 {
        Some(Seq::empty())
    } else {
        match (field_text(fields[0]), field_lines(fields.drop_first())) {
            (Some(f), Some(rest)) => Some("\t "@ + f + ",\n"@ + rest),
            _ => None,
        }
    }
}

/// A description `Name : Type a, Type b` as an enum variant with named
/// fields.
pub open spec fn variant_text(t: Seq<char>) -> Option<Seq<char>> {
    match split_once(t, ':') {
        Some((a, b)) => match field_lines(split_all(trim(b), ',')) {
            Some(lines) => Some("\t"@ + trim(a) + "{\n"@ + lines + "\t},\n\n"@),
            None => None,
        },
        None => None,
    }
}

pub open spec fn variants_text(types: Seq<Seq<char>>) -> Option<Seq<char>>
    decreases types.len(),
{
    if types.len() == 0 {
        Some(Seq::empty())
    } else {
        match (variant_text(types[0]), variants_text(types.drop_first())) {
            (Some(v), Some(rest)) => Some(v + rest),
            _ => None,
        }
    }
}

pub open spec fn import_line(i: Seq<char>) -> Seq<char> {
    if i == "rc"@ {
        "use std::rc::Rc;\n"@
    } else {
        "use crate::"@ + i + "::*;\n"@
    }
}

pub open spec fn imports_text(imports: Seq<Seq<char>>) -> Seq<char>
    decreases imports.len(),
{
    if imports.len() == 0 {
        Seq::empty()
    } else {
        import_line(imports[0]) + imports_text(imports.drop_first())
    }
}

pub open spec fn literals_text(lits: Seq<Seq<char>>) -> Seq<char>
    decreases lits.len(),
{
    if lits.len() == 0 {
        Seq::empty()
    } else {
        "\t"@ + lits[0] + ",\n"@ + literals_text(lits.drop_first())
    }
}

pub open spec fn ascii_lower(c: char) -> char {
    if 'A' <= c && c <= 'Z' {
        ((c as u8) + 32u8) as char
    } else {
        c
    }
}

/// The source text of the module that defines the enum `name`, or
/// nothing when a description is malformed.
pub open spec fn module_text(name: Seq<char>, imports: Seq<Seq<char>>, types: Seq<Seq<char>>, lits: Seq<Seq<char>>) -> Option<Seq<char>> {
    match variants_text(types) {
        Some(v) => Some(
            imports_text(imports) + "\n\n"@ + "#[derive(Debug, PartialEq)]\n"@ + "pub enum "@ + name + " {\n"@
                + literals_text(lits) + v + "}\n\n"@,
        ),
        None => None,
    }
}

/// The path of the generated module: the directory, then the enum name in
/// lower case.
pub open spec fn generated_path(dir: Seq<char>, name: Seq<char>) -> Seq<char> {
    dir + "/"@ + name.map_values(|c: char| ascii_lower(c)) + ".rs"@
}

pub open spec fn strs_view(v: Seq<&str>) -> Seq<Seq<char>> {
    v.map_values(|s: &str| s@)
}

fn append_chars(out: &mut String, v: &Vec<char>, from: usize, to: usize)
    requires
        from <= to <= v.len(),
    ensures
        final(out)@ == old(out)@ + v@.subrange(from as int, to as int),
{
    let mut i = from;
    while i < to
        invariant
            from <= i <= to <= v.len(),
            out@ == old(out)@ + v@.subrange(from as int, i as int),
        decreases to - i,
    {
        push_char(out, v[i]);
        assert(out@ =~= old(out)@ + v@.subrange(from as int, i + 1));
        i = i + 1;
    }
}

fn find(v: &Vec<char>, c: char, from: usize, to: usize) -> (r: Option<usize>)
    requires
        from <= to <= v.len(),
    ensures
        match r {
            Some(j) => index_of(v@.subrange(0, to as int), c, from as int) == Some(j as int) && from <= j < to,
            None => index_of(v@.subrange(0, to as int), c, from as int) is None,
        },
{
    let ghost s = v@.subrange(0, to as int);
    let mut i = from;
    while i < to
        invariant
            from <= i <= to <= v.len(),
            s == v@.subrange(0, to as int),
            index_of(s, c, from as int) == index_of(s, c, i as int),
        decreases to - i,
    {
        if v[i] == c {
            proof { lemma_index_of(s, c, i as int); }
            return Some(i);
        }
        i = i + 1;
    }
    None
}

proof fn lemma_trim_start_shift(s: Seq<char>, i: int)
    requires
        0 <= i < s.len(),
        is_space(s[i]),
    ensures
        trim_start(s.subrange(i, s.len() as int)) == trim_start(s.subrange(i + 1, s.len() as int)),
{
    assert(s.subrange(i, s.len() as int).drop_first() =~= s.subrange(i + 1, s.len() as int));
}

proof fn lemma_trim_end_shift(s: Seq<char>, j: int)
    requires
        0 < j <= s.len(),
        is_space(s[j - 1]),
    ensures
        trim_end(s.subrange(0, j)) == trim_end(s.subrange(0, j - 1)),
{
    assert(s.subrange(0, j).drop_last() =~= s.subrange(0, j - 1));
}

/// The bounds of `v[from..to]` without surrounding white space.
fn trim_bounds(v: &Vec<char>, from: usize, to: usize) -> (r: (usize, usize))
    requires
        from <= to <= v.len(),
    ensures
        r.0 <= r.1 <= v.len(),
        v@.subrange(r.0 as int, r.1 as int) == trim(v@.subrange(from as int, to as int)),
{
    let ghost s = v@.subrange(from as int, to as int);
    let mut i = from;
    while i < to && (v[i] == ' ' || v[i] == '\t' || v[i] == '\n' || v[i] == '\r')
        invariant
            from <= i <= to <= v.len(),
            s == v@.subrange(from as int, to as int),
            trim_start(s) == trim_start(v@.subrange(i as int, to as int)),
        decreases to - i,
    {
        proof {
            lemma_trim_start_shift(v@.subrange(0, to as int), i as int);
            assert(v@.subrange(0, to as int).subrange(i as int, to as int) =~= v@.subrange(i as int, to as int));
            assert(v@.subrange(0, to as int).subrange(i + 1, to as int) =~= v@.subrange(i + 1, to as int));
        }
        i = i + 1;
    }
    proof {
        if i < to {
            assert(v@.subrange(i as int, to as int)[0] == v@[i as int]);
        }
        assert(trim_start(v@.subrange(i as int, to as int)) == v@.subrange(i as int, to as int));
    }
    let mut j = to;
    while j > i && (v[j - 1] == ' ' || v[j - 1] == '\t' || v[j - 1] == '\n' || v[j - 1] == '\r')
        invariant
            from <= i <= j <= to <= v.len(),
            trim_end(v@.subrange(i as int, to as int)) == trim_end(v@.subrange(i as int, j as int)),
        decreases j - i,
    {
        proof {
            lemma_trim_end_shift(v@.subrange(i as int, j as int), (j - i) as int);
            assert(v@.subrange(i as int, j as int).subrange(0, (j - i) as int) =~= v@.subrange(i as int, j as int));
            assert(v@.subrange(i as int, j as int).subrange(0, (j - i - 1) as int) =~= v@.subrange(i as int, j - 1));
        }
        j = j - 1;
    }
    proof {
        if j > i {
            assert(v@.subrange(i as int, j as int).last() == v@[j - 1]);
        }
    }
    (i, j)
}

fn append_str(out: &mut String, s: &str)
    ensures
        final(out)@ == old(out)@ + s@,
{
    out.append(s);
}

/// `Type name` in `v[from..to]` as `name: Type`.
fn field_string(v: &Vec<char>, from: usize, to: usize) -> (r: Option<String>)
    requires
        from <= to <= v.len(),
    ensures
        match r {
            Some(s) => field_text(v@.subrange(from as int, to as int)) == Some(s@),
            None => field_text(v@.subrange(from as int, to as int)) is None,
        },
{
    let (a, b) = trim_bounds(v, from, to);
    let ghost t = v@.subrange(a as int, b as int);
    match find(v, ' ', a, b) {
        Some(k) => {
            proof {
                assert(v@.subrange(0, b as int).subrange(a as int, b as int) =~= t);
                lemma_index_shift(v@.subrange(0, b as int), ' ', a as int, 0);
                assert(index_of(t, ' ', 0) == Some((k - a) as int));
                lemma_index_of(t, ' ', 0);
            }
            let mut out = String::new();
            append_chars(&mut out, v, k + 1, b);
            append_str(&mut out, ": ");
            append_chars(&mut out, v, a, k);
            assert(t.subrange(0, k - a) =~= v@.subrange(a as int, k as int));
            assert(t.subrange(k - a + 1, t.len() as int) =~= v@.subrange(k + 1, b as int));
            assert(split_once(t, ' ') == Some((t.subrange(0, k - a), t.subrange(k - a + 1, t.len() as int))));
            assert(out@ =~= v@.subrange(k + 1, b as int) + ": "@ + v@.subrange(a as int, k as int));
            Some(out)
        },
        None => {
            proof {
                assert(v@.subrange(0, b as int).subrange(a as int, b as int) =~= t);
                lemma_index_shift(v@.subrange(0, b as int), ' ', a as int, 0);
            }
            None
        },
    }
}

/// Searching `s[a..]` from its start is searching `s` from `a`, shifted.
proof fn lemma_index_shift(s: Seq<char>, c: char, a: int, i: int)
    requires
        0 <= a <= s.len(),
        0 <= i,
    ensures
        index_of(s.subrange(a, s.len() as int), c, i) == (match index_of(s, c, a + i) {
            Some(j) => Some(j - a),
            None => None::<int>,
        }),
    decreases s.len() - a - i,
{
    if a + i < s.len() {
        lemma_index_shift(s, c, a, i + 1);
    }
}

pub open spec fn prefixed(a: Seq<char>, o: Option<Seq<char>>) -> Option<Seq<char>> {
    match o {
        Some(x) => Some(a + x),
        None => None,
    }
}

/// The field lines for the comma-separated fields in `v[from..to]`.
fn field_block(v: &Vec<char>, from: usize, to: usize) -> (r: Option<String>)
    requires
        from <= to <= v.len(),
    ensures
        match r {
            Some(s) => field_lines(split_all(v@.subrange(from as int, to as int), ',')) == Some(s@),
            None => field_lines(split_all(v@.subrange(from as int, to as int), ',')) is None,
        },
{
    let ghost whole = split_all(v@.subrange(from as int, to as int), ',');
    let mut out = String::new();
    let mut pos = from;
    loop
        invariant
            from <= pos <= to <= v.len(),
            whole == split_all(v@.subrange(from as int, to as int), ','),
            field_lines(whole) == prefixed(out@, field_lines(split_all(v@.subrange(pos as int, to as int), ','))),
        decreases to - pos,
    {
        let ghost sp = v@.subrange(pos as int, to as int);
        proof {
            assert(v@.subrange(0, to as int).subrange(pos as int, to as int) =~= sp);
            lemma_index_shift(v@.subrange(0, to as int), ',', pos as int, 0);
        }
        match find(v, ',', pos, to) {
            Some(k) => {
                proof {
                    let j = (k - pos) as int;
                    assert(index_of(sp, ',', 0) == Some(j));
                    assert(sp.subrange(0, j) =~= v@.subrange(pos as int, k as int));
                    assert(sp.subrange(j + 1, sp.len() as int) =~= v@.subrange(k + 1, to as int));
                    let pieces = split_all(sp, ',');
                    assert(pieces == seq![sp.subrange(0, j)] + split_all(sp.subrange(j + 1, sp.len() as int), ','));
                    assert(pieces.drop_first() =~= split_all(v@.subrange(k + 1, to as int), ','));
                    assert(pieces[0] == v@.subrange(pos as int, k as int));
                }
                match field_string(v, pos, k) {
                    Some(f) => {
                        let ghost before = out@;
                        append_str(&mut out, "\t ");
                        out.append(f.as_str());
                        append_str(&mut out, ",\n");
                        proof {
                            let rest = field_lines(split_all(v@.subrange(k + 1, to as int), ','));
                            match rest {
                                Some(x) => {
                                    assert(before + ("\t "@ + f@ + ",\n"@ + x) =~= out@ + x);
                                },
                                None => {},
                            }
                        }
                        pos = k + 1;
                    },
                    None => {
                        return None;
                    },
                }
            },
            None => {
                proof {
                    assert(split_all(sp, ',') == seq![sp]);
                    assert(seq![sp].drop_first() =~= Seq::<Seq<char>>::empty());
                    assert(seq![sp][0] == sp);
                }
                match field_string(v, pos, to) {
                    Some(f) => {
                        let ghost before = out@;
                        append_str(&mut out, "\t ");
                        out.append(f.as_str());
                        append_str(&mut out, ",\n");
                        proof {
                            assert(field_lines(Seq::<Seq<char>>::empty()) == Some(Seq::<char>::empty()));
                            assert(before + ("\t "@ + f@ + ",\n"@ + Seq::<char>::empty()) =~= out@);
                        }
                        return Some(out);
                    },
                    None => {
                        return None;
                    },
                }
            },
        }
    }
}

/// The enum variant for one description.
fn variant_string(t: &str) -> (r: Option<String>)
    ensures
        match r {
            Some(s) => variant_text(t@) == Some(s@),
            None => variant_text(t@) is None,
        },
{
    let v = chars_of(t);
    let n = v.len();
    proof {
        assert(v@.subrange(0, n as int) =~= v@);
    }
    match find(&v, ':', 0, n) {
        Some(k) => {
            let (a0, a1) = trim_bounds(&v, 0, k);
            let (b0, b1) = trim_bounds(&v, k + 1, n);
            match field_block(&v, b0, b1) {
                Some(lines) => {
                    let mut out = String::new();
                    append_str(&mut out, "\t");
                    append_chars(&mut out, &v, a0, a1);
                    append_str(&mut out, "{\n");
                    out.append(lines.as_str());
                    append_str(&mut out, "\t},\n\n");
                    Some(out)
                },
                None => None,
            }
        },
        None => None,
    }
}

pub open spec fn literals_view(l: Option<Vec<&str>>) -> Seq<Seq<char>> {
    match l {
        Some(v) => strs_view(v@),
        None => Seq::empty(),
    }
}

fn lower_char(c: char) -> (r: char)
    ensures
        r == ascii_lower(c),
{
    if 'A' <= c && c <= 'Z' {
        ((c as u8) + 32u8) as char
    } else {
        c
    }
}

/// Writes the module that defines the enum `filename`: its path and its
/// text, or nothing when a description is malformed.
fn define_ast(
    output_dir: &str,
    filename: &str,
    imports: &Vec<&str>,
    types_vec: &Vec<&str>,
    literals: &Option<Vec<&str>>,
) -> (r: Option<(String, String)>)
    ensures
        match r {
            Some((p, t)) => p@ == generated_path(output_dir@, filename@)
                && module_text(filename@, strs_view(imports@), strs_view(types_vec@), literals_view(*literals)) == Some(t@),
            None => module_text(filename@, strs_view(imports@), strs_view(types_vec@), literals_view(*literals)) is None,
        },
{
    let mut path = String::new();
    append_str(&mut path, output_dir);
    append_str(&mut path, "/");
    let name = chars_of(filename);
    let mut i: usize = 0;
    while i < name.len()
        invariant
            i <= name.len(),
            name@ == filename@,
            path@ == output_dir@ + "/"@ + name@.subrange(0, i as int).map_values(|c: char| ascii_lower(c)),
        decreases name.len() - i,
    {
        push_char(&mut path, lower_char(name[i]));
        assert(name@.subrange(0, i + 1).map_values(|c: char| ascii_lower(c))
            =~= name@.subrange(0, i as int).map_values(|c: char| ascii_lower(c)).push(ascii_lower(name@[i as int])));
        i = i + 1;
    }
    append_str(&mut path, ".rs");
    assert(name@.subrange(0, name@.len() as int) =~= name@);

    let ghost imps = strs_view(imports@);
    let mut text = String::new();
    let mut i: usize = 0;
    assert(imps.subrange(0, imps.len() as int) =~= imps);
    assert(text@ + imports_text(imps) =~= imports_text(imps));
    while i < imports.len()
        invariant
            i <= imports.len(),
            imps == strs_view(imports@),
            imports_text(imps) == text@ + imports_text(imps.subrange(i as int, imps.len() as int)),
        decreases imports.len() - i,
    {
        let ghost rest = imps.subrange(i as int, imps.len() as int);
        assert(rest.drop_first() =~= imps.subrange(i + 1, imps.len() as int));
        let ghost before = text@;
        let imp = imports[i];
        if String::from_str(imp) == String::from_str("rc") {
            append_str(&mut text, "use std::rc::Rc;\n");
        } else {
            append_str(&mut text, "use crate::");
            append_str(&mut text, imp);
            append_str(&mut text, "::*;\n");
        }
        assert(before + import_line(rest[0]) =~= text@);
        i = i + 1;
    }
    assert(imps.subrange(imports.len() as int, imps.len() as int) =~= Seq::<Seq<char>>::empty());
    append_str(&mut text, "\n\n");
    append_str(&mut text, "#[derive(Debug, PartialEq)]\n");
    append_str(&mut text, "pub enum ");
    append_str(&mut text, filename);
    append_str(&mut text, " {\n");
    let ghost head = text@;
    let ghost lits = literals_view(*literals);
    match literals {
        Some(l) => {
            let mut i: usize = 0;
            assert(lits.subrange(0, lits.len() as int) =~= lits);
            while i < l.len()
                invariant
                    i <= l.len(),
                    lits == strs_view(l@),
                    head + literals_text(lits) == text@ + literals_text(lits.subrange(i as int, lits.len() as int)),
                decreases l.len() - i,
            {
                let ghost rest = lits.subrange(i as int, lits.len() as int);
                assert(rest.drop_first() =~= lits.subrange(i + 1, lits.len() as int));
                let ghost before = text@;
                append_str(&mut text, "\t");
                append_str(&mut text, l[i]);
                append_str(&mut text, ",\n");
                assert(before + ("\t"@ + rest[0] + ",\n"@) + literals_text(rest.drop_first())
                    =~= text@ + literals_text(lits.subrange(i + 1, lits.len() as int)));
                i = i + 1;
            }
            assert(lits.subrange(l.len() as int, lits.len() as int) =~= Seq::<Seq<char>>::empty());
        },
        None => {},
    }
    let ghost mid = text@;
    let ghost tys = strs_view(types_vec@);
    let mut i: usize = 0;
    assert(tys.subrange(0, tys.len() as int) =~= tys);
    while i < types_vec.len()
        invariant
            i <= types_vec.len(),
            tys == strs_view(types_vec@),
            prefixed(mid, variants_text(tys)) == prefixed(text@, variants_text(tys.subrange(i as int, tys.len() as int))),
        decreases types_vec.len() - i,
    {
        let ghost rest = tys.subrange(i as int, tys.len() as int);
        assert(rest.drop_first() =~= tys.subrange(i + 1, tys.len() as int));
        let ghost before = text@;
        match variant_string(types_vec[i]) {
            Some(v) => {
                text.append(v.as_str());
                proof {
                    match variants_text(rest.drop_first()) {
                        Some(x) => {
                            assert(before + (v@ + x) =~= text@ + x);
                        },
                        None => {},
                    }
                }
            },
            None => {
                return None;
            },
        }
        i = i + 1;
    }
    assert(tys.subrange(types_vec.len() as int, tys.len() as int) =~= Seq::<Seq<char>>::empty());
    append_str(&mut text, "}\n\n");
    proof {
        let v = variants_text(tys)->0;
        assert(mid + v + "}\n\n"@ =~= text@);
    }
    Some((path, text))
}

/// The variant descriptions of the expression enum.
pub open spec fn expr_types() -> Seq<Seq<char>> {
    seq![
        "Binary     : Box<Expr> left, Token operator, Box<Expr> right"@,
        "Call       : Box<Expr> callee,  Box<Vec<Expr>> arguments"@,
        "Assign     : usize id, String name, Box<Expr> value"@,
        "Grouping   : Box<Expr> expression"@,
        "Logical    : Box<Expr> left, Token operator, Box<Expr> right"@,
        "Unary      : Token operator, Box<Expr> right"@,
        "Variable   : usize id, String name"@,
    ]
}

/// The payload-carrying literal variants of the expression enum.
pub open spec fn expr_literals() -> Seq<Seq<char>> {
    seq![
        "Number(f64)"@,
        "String(String)"@,
        "Boolean(bool)"@,
        "Nil"@,
    ]
}

/// The variant descriptions of the statement enum.
pub open spec fn stmt_types() -> Seq<Seq<char>> {
    seq![
        "Block      : Vec<Stmt> statements"@,
        "Expression : Expr expression"@,
        "If         : Expr condition, Box<Stmt> then_branch, Option<Box<Stmt>> else_branch"@,
        "Function   : String name, Rc<Vec<String>> parameters, Rc<Vec<Stmt>> body"@,
        "Print      : Expr expression"@,
        "Return     : Option<Expr> value"@,
        "Var        : String name, Option<Expr> initializer"@,
        "While      : Expr condition, Box<Stmt> body"@,
    ]
}

/// The generated syntax-tree modules, as (path, text) pairs for the
/// caller to write: the expression enum, then the statement enum.
pub fn ast_generator(output_dir: &str) -> (r: Option<Vec<(String, String)>>)
    ensures
        match r {
            Some(files) => files@.len() == 2
                && files@[0].0@ == generated_path(output_dir@, "Expr"@)
                && module_text("Expr"@, seq!["scanner"@], expr_types(), expr_literals()) == Some(files@[0].1@)
                && files@[1].0@ == generated_path(output_dir@, "Stmt"@)
                && module_text("Stmt"@, seq!["expr"@, "rc"@], stmt_types(), Seq::empty()) == Some(files@[1].1@),
            None => module_text("Expr"@, seq!["scanner"@], expr_types(), expr_literals()) is None
                || module_text("Stmt"@, seq!["expr"@, "rc"@], stmt_types(), Seq::empty()) is None,
        },
{
    let mut imports: Vec<&str> = Vec::new();
    imports.push("scanner");
    let mut types: Vec<&str> = Vec::new();
    types.push("Binary     : Box<Expr> left, Token operator, Box<Expr> right");
    types.push("Call       : Box<Expr> callee,  Box<Vec<Expr>> arguments");
    types.push("Assign     : usize id, String name, Box<Expr> value");
    types.push("Grouping   : Box<Expr> expression");
    types.push("Logical    : Box<Expr> left, Token operator, Box<Expr> right");
    types.push("Unary      : Token operator, Box<Expr> right");
    types.push("Variable   : usize id, String name");
    let mut literals: Vec<&str> = Vec::new();
    literals.push("Number(f64)");
    literals.push("String(String)");
    literals.push("Boolean(bool)");
    literals.push("Nil");
    assert(strs_view(imports@) =~= seq!["scanner"@]);
    assert(strs_view(types@) =~= expr_types());
    assert(strs_view(literals@) =~= expr_literals());
    let expr = define_ast(output_dir, "Expr", &imports, &types, &Some(literals));
    let mut imports: Vec<&str> = Vec::new();
    imports.push("expr");
    imports.push("rc");
    let mut types: Vec<&str> = Vec::new();
    types.push("Block      : Vec<Stmt> statements");
    types.push("Expression : Expr expression");
    types.push("If         : Expr condition, Box<Stmt> then_branch, Option<Box<Stmt>> else_branch");
    types.push("Function   : String name, Rc<Vec<String>> parameters, Rc<Vec<Stmt>> body");
    types.push("Print      : Expr expression");
    types.push("Return     : Option<Expr> value");
    types.push("Var        : String name, Option<Expr> initializer");
    types.push("While      : Expr condition, Box<Stmt> body");
    assert(strs_view(imports@) =~= seq!["expr"@, "rc"@]);
    assert(strs_view(types@) =~= stmt_types());
    let stmt = define_ast(output_dir, "Stmt", &imports, &types, &None);
    match (expr, stmt) {
        (Some(e), Some(s)) => {
            let mut files: Vec<(String, String)> = Vec::new();
            files.push(e);
            files.push(s);
            Some(files)
        },
        _ => None,
    }
}

} // verus!
