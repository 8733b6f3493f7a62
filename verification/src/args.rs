//! The argument model: which export formats are requested, and an optional
//! input file, together with the exact serialization to the
//! `--export-type=<comma-joined formats>` command-line flag and the parse in
//! the other direction.

use vstd::prelude::*;

use crate::text::join_char;
use crate::text::lemma_contains_cons;
use crate::text::lemma_find_sep_at;
use crate::text::lemma_split_join;
use crate::text::split_char;
use crate::text::str_eq;

verus! {

/// Mathematical model of an argument set: three independent format flags and
/// an optional input path, as plain character sequences.
pub ghost struct ArgsModel {
    pub input: Option<Seq<char>>,
    pub png: bool,
    pub pdf: bool,
    pub eps: bool,
}

/// An immutable export request: which formats to produce and, optionally,
/// which file to export. All eight flag combinations are legal, including
/// all-false, which serializes to no flag at all.
#[derive(Debug)]
pub struct InkscapeArgs {
    pub file_path_input: Option<String>,
    pub export_png: bool,
    pub export_eps: bool,
    pub export_pdf: bool,
}

impl View for InkscapeArgs {
    type V = ArgsModel;

    open spec fn view(&self) -> ArgsModel {
        ArgsModel {
            input: match self.file_path_input {
                Some(p) => Some(p@),
                None => None,
            },
            png: self.export_png,
            pdf: self.export_pdf,
            eps: self.export_eps,
        }
    }
}

impl DeepView for InkscapeArgs {
    type V = ArgsModel;

    open spec fn deep_view(&self) -> ArgsModel {
        self.view()
    }
}

/// The selected format names, in the fixed order png, pdf, eps.
pub open spec fn format_tokens(png: bool, pdf: bool, eps: bool) -> Seq<Seq<char>> {
    (if png {
        seq!["png"@]
    } else {
        Seq::<Seq<char>>::empty()
    }) + (if pdf {
        seq!["pdf"@]
    } else {
        Seq::<Seq<char>>::empty()
    }) + (if eps {
        seq!["eps"@]
    } else {
        Seq::<Seq<char>>::empty()
    })
}

/// The `--export-type=` flag for a flag combination: the prefix followed by
/// the comma-joined selected formats, or nothing when no format is selected.
pub open spec fn export_type_arg(png: bool, pdf: bool, eps: bool) -> Option<Seq<char>> {
    if png || pdf || eps {
        Some("--export-type="@ + join_char(format_tokens(png, pdf, eps), ','))
    } else {
        None
    }
}

/// The serialized argument list of an argument set: the export-type flag if
/// any format is selected, then the input path if one is given. The executable
/// itself is not part of this list.
pub open spec fn spec_export_args(m: ArgsModel) -> Seq<Seq<char>> {
    (match export_type_arg(m.png, m.pdf, m.eps) {
        Some(flag) => seq![flag],
        None => Seq::<Seq<char>>::empty(),
    }) + (match m.input {
        Some(p) => seq![p],
        None => Seq::<Seq<char>>::empty(),
    })
}

/// Whether an argument token is an `--export-type=` flag.
pub open spec fn is_export_type_arg(a: Seq<char>) -> bool {
    a.len() >= "--export-type="@.len() && a.subrange(0, "--export-type="@.len() as int)
        == "--export-type="@
}

/// The comma-separated value part of an `--export-type=` flag.
pub open spec fn arg_csv(a: Seq<char>) -> Seq<char> {
    a.subrange("--export-type="@.len() as int, a.len() as int)
}

/// Whether argument token `a` is an `--export-type=` flag that selects the
/// format named `tok`.
pub open spec fn arg_selects(a: Seq<char>, tok: Seq<char>) -> bool {
    is_export_type_arg(a) && split_char(arg_csv(a), ',').contains(tok)
}

/// Whether some argument in the list selects the format named `tok`.
pub open spec fn argv_selects(argv: Seq<Seq<char>>, tok: Seq<char>) -> bool {
    exists|i: int| 0 <= i < argv.len() && #[trigger] arg_selects(argv[i], tok)
}

/// The input path read from an argument list: the last token that is not an
/// `--export-type=` flag, or none.
pub open spec fn spec_input_path(argv: Seq<Seq<char>>) -> Option<Seq<char>>
    decreases argv.len(),
{
    if argv.len() == 0 {
        None
    } else if !is_export_type_arg(argv.last()) {
        Some(argv.last())
    } else {
        spec_input_path(argv.drop_last())
    }
}

/// The argument set described by an argument list: a format is selected when
/// some `--export-type=` flag names it, in any token order; every other token
/// is taken as a positional input path, the last one winning.
pub open spec fn spec_parse(argv: Seq<Seq<char>>) -> ArgsModel {
    ArgsModel {
        input: spec_input_path(argv),
        png: argv_selects(argv, "png"@),
        pdf: argv_selects(argv, "pdf"@),
        eps: argv_selects(argv, "eps"@),
    }
}

impl InkscapeArgs {
    /// The empty request: no formats, no input file.
    pub fn new() -> (r: InkscapeArgs)
        ensures
            r@ == (ArgsModel { input: None, png: false, pdf: false, eps: false }),
    {
        InkscapeArgs { file_path_input: None, export_png: false, export_eps: false, export_pdf: false }
    }

    /// An independent copy of this request: the worker keeps its own snapshot
    /// of what the UI asked for.
    pub fn snapshot(&self) -> (r: InkscapeArgs)
        ensures
            r@ == self@,
    {
        let input = match &self.file_path_input {
            Some(p) => Some(p.clone()),
            None => None,
        };
        InkscapeArgs {
            file_path_input: input,
            export_png: self.export_png,
            export_eps: self.export_eps,
            export_pdf: self.export_pdf,
        }
    }

    /// The `--export-type=` flag for this request, from the fixed table keyed
    /// by the three format flags; `None` when no format is selected.
    pub fn export_type_flag(&self) -> (r: Option<String>)
        ensures
            match r {
                Some(s) => export_type_arg(self.export_png, self.export_pdf, self.export_eps)
                    == Some(s@),
                None => export_type_arg(self.export_png, self.export_pdf, self.export_eps)
                    is None,
            },
    {
        proof {
            lemma_export_type_table();
        }
        match (self.export_png, self.export_pdf, self.export_eps) {
            (true, true, true) => Some(String::from_str("--export-type=png,pdf,eps")),
            (true, true, false) => Some(String::from_str("--export-type=png,pdf")),
            (true, false, true) => Some(String::from_str("--export-type=png,eps")),
            (true, false, false) => Some(String::from_str("--export-type=png")),
            (false, true, true) => Some(String::from_str("--export-type=pdf,eps")),
            (false, true, false) => Some(String::from_str("--export-type=pdf")),
            (false, false, true) => Some(String::from_str("--export-type=eps")),
            (false, false, false) => None,
        }
    }

    /// The serialized argument list: the export-type flag if any format is
    /// selected, then the input path if one is given.
    pub fn export_args(&self) -> (argv: Vec<String>)
        ensures
            argv.deep_view() == spec_export_args(self@),
    {
        let mut argv: Vec<String> = Vec::new();
        match self.export_type_flag() {
            Some(flag) => argv.push(flag),
            None => (),
        }
        match &self.file_path_input {
            Some(p) => argv.push(p.clone()),
            None => (),
        }
        proof {
            assert(argv.deep_view() =~= spec_export_args(self@));
        }
        argv
    }

    /// Reads an argument set back from an argument list, recognizing exactly
    /// the `--export-type=a,b,c` pattern; every other token is taken as a
    /// positional input path.
    pub fn from_command_args(argv: &Vec<String>) -> (r: InkscapeArgs)
        ensures
            r@ == spec_parse(argv.deep_view()),
    {
        let ghost whole: Seq<Seq<char>> = argv.deep_view();
        let mut png = false;
        let mut pdf = false;
        let mut eps = false;
        let mut input: Option<String> = None;
        let mut k: usize = 0;
        while k < argv.len()
            invariant
                0 <= k <= argv.len(),
                whole == argv.deep_view(),
                whole.len() == argv.len(),
                png == argv_selects(whole.subrange(0, k as int), "png"@),
                pdf == argv_selects(whole.subrange(0, k as int), "pdf"@),
                eps == argv_selects(whole.subrange(0, k as int), "eps"@),
                (match input {
                    Some(p) => spec_input_path(whole.subrange(0, k as int)) == Some(p@),
                    None => spec_input_path(whole.subrange(0, k as int)) is None,
                }),
            decreases argv.len() - k,
        {
            let ghost prefix = whole.subrange(0, k as int);
            let ghost next = whole.subrange(0, (k + 1) as int);
            proof {
                assert(next.drop_last() =~= prefix);
                assert(next.last() == whole[k as int]);
                lemma_argv_selects_push(prefix, whole[k as int], "png"@);
                lemma_argv_selects_push(prefix, whole[k as int], "pdf"@);
                lemma_argv_selects_push(prefix, whole[k as int], "eps"@);
            }
            let a: &String = &argv[k];
            if has_export_prefix(a.as_str()) {
                let n = a.as_str().unicode_len();
                proof {
                    reveal_strlit("--export-type=");
                }
                let csv = a.as_str().substring_char(14, n);
                proof {
                    assert(csv@ =~= arg_csv(a@));
                }
                scan_format_tokens(csv, &mut png, &mut pdf, &mut eps);
            } else {
                input = Some(a.clone());
            }
            k = k + 1;
        }
        proof {
            assert(whole.subrange(0, whole.len() as int) =~= whole);
        }
        InkscapeArgs {
            file_path_input: input,
            export_png: png,
            export_eps: eps,
            export_pdf: pdf,
        }
    }
}

/// A format selected by a list with one more flag at the end is selected by
/// the last flag or by the list before it.
proof fn lemma_argv_selects_push(argv: Seq<Seq<char>>, a: Seq<char>, tok: Seq<char>)
    ensures
        argv_selects(argv.push(a), tok) <==> (argv_selects(argv, tok) || arg_selects(a, tok)),
{
    let whole = argv.push(a);
    if argv_selects(argv, tok) {
        let i = choose|i: int| 0 <= i < argv.len() && #[trigger] arg_selects(argv[i], tok);
        assert(arg_selects(whole[i], tok));
    }
    if arg_selects(a, tok) {
        assert(arg_selects(whole[argv.len() as int], tok));
    }
    if argv_selects(whole, tok) {
        let i = choose|i: int| 0 <= i < whole.len() && #[trigger] arg_selects(whole[i], tok);
        if i < argv.len() {
            assert(arg_selects(argv[i], tok));
        }
    }
}

/// Whether `a` starts with the 14 characters `--export-type=`.
fn has_export_prefix(a: &str) -> (r: bool)
    ensures
        r == is_export_type_arg(a@),
{
    let pre = "--export-type=";
    proof {
        reveal_strlit("--export-type=");
    }
    let n = a.unicode_len();
    if n < 14 {
        return false;
    }
    let mut i: usize = 0;
    while i < 14
        invariant
            0 <= i <= 14,
            n == a@.len(),
            n >= 14,
            pre@ == "--export-type="@,
            pre@.len() == 14,
            forall|j: int| 0 <= j < i ==> a@[j] == pre@[j],
        decreases 14 - i,
    {
        if a.get_char(i) != pre.get_char(i) {
            proof {
                assert(a@.subrange(0, 14)[i as int] != pre@[i as int]);
            }
            return false;
        }
        i = i + 1;
    }
    proof {
        assert(a@.subrange(0, 14) =~= pre@);
    }
    true
}

/// Walks the comma-separated value part of an `--export-type=` flag and turns
/// on each named format; unknown names are ignored, and no flag is ever
/// turned off.
fn scan_format_tokens(csv: &str, png: &mut bool, pdf: &mut bool, eps: &mut bool)
    ensures
        *final(png) == (*old(png) || split_char(csv@, ',').contains("png"@)),
        *final(pdf) == (*old(pdf) || split_char(csv@, ',').contains("pdf"@)),
        *final(eps) == (*old(eps) || split_char(csv@, ',').contains("eps"@)),
    decreases csv@.len(),
{
    let n = csv.unicode_len();
    let mut i: usize = 0;
    while i < n && csv.get_char(i) != ','
        invariant
            0 <= i <= n,
            n == csv@.len(),
            forall|j: int| 0 <= j < i ==> csv@[j] != ',',
        decreases n - i,
    {
        i = i + 1;
    }
    proof {
        lemma_find_sep_at(csv@, ',', i as int);
    }
    let token = csv.substring_char(0, i);
    if str_eq(token, "png") {
        *png = true;
    }
    if str_eq(token, "pdf") {
        *pdf = true;
    }
    if str_eq(token, "eps") {
        *eps = true;
    }
    if i < n {
        let rest = csv.substring_char(i + 1, n);
        proof {
            let split = split_char(csv@, ',');
            assert(split == seq![token@] + split_char(rest@, ','));
            lemma_contains_cons(token@, split_char(rest@, ','), "png"@);
            lemma_contains_cons(token@, split_char(rest@, ','), "pdf"@);
            lemma_contains_cons(token@, split_char(rest@, ','), "eps"@);
        }
        scan_format_tokens(rest, png, pdf, eps);
    } else {
        proof {
            assert(token@ =~= csv@);
            let split = split_char(csv@, ',');
            assert(split == seq![csv@]);
            assert(split.contains("png"@) <==> csv@ == "png"@) by {
                lemma_contains_cons(csv@, Seq::<Seq<char>>::empty(), "png"@);
                assert(seq![csv@] + Seq::<Seq<char>>::empty() =~= seq![csv@]);
            }
            assert(split.contains("pdf"@) <==> csv@ == "pdf"@) by {
                lemma_contains_cons(csv@, Seq::<Seq<char>>::empty(), "pdf"@);
                assert(seq![csv@] + Seq::<Seq<char>>::empty() =~= seq![csv@]);
            }
            assert(split.contains("eps"@) <==> csv@ == "eps"@) by {
                lemma_contains_cons(csv@, Seq::<Seq<char>>::empty(), "eps"@);
                assert(seq![csv@] + Seq::<Seq<char>>::empty() =~= seq![csv@]);
            }
        }
    }
}

/// What the selected-format list holds: exactly the names of the selected
/// formats, none of them containing a comma, and nothing at all only when no
/// format is selected.
proof fn lemma_format_tokens_facts(png: bool, pdf: bool, eps: bool)
    ensures
        format_tokens(png, pdf, eps).len() > 0 <==> (png || pdf || eps),
        forall|k: int|
            0 <= k < format_tokens(png, pdf, eps).len() ==> !(#[trigger] format_tokens(
                png,
                pdf,
                eps,
            )[k]).contains(','),
        format_tokens(png, pdf, eps).contains("png"@) <==> png,
        format_tokens(png, pdf, eps).contains("pdf"@) <==> pdf,
        format_tokens(png, pdf, eps).contains("eps"@) <==> eps,
{
    reveal_strlit("png");
    reveal_strlit("pdf");
    reveal_strlit("eps");
    assert("png"@[1] != "pdf"@[1]);
    assert("png"@[0] != "eps"@[0]);
    assert("pdf"@[0] != "eps"@[0]);
    assert(!"png"@.contains(',')) by {
        assert forall|i: int| 0 <= i < "png"@.len() implies "png"@[i] != ',' by {
            assert("png"@.len() == 3);
        }
    }
    assert(!"pdf"@.contains(',')) by {
        assert forall|i: int| 0 <= i < "pdf"@.len() implies "pdf"@[i] != ',' by {
            assert("pdf"@.len() == 3);
        }
    }
    assert(!"eps"@.contains(',')) by {
        assert forall|i: int| 0 <= i < "eps"@.len() implies "eps"@[i] != ',' by {
            assert("eps"@.len() == 3);
        }
    }
    let toks = format_tokens(png, pdf, eps);
    if png && pdf && eps {
        assert(toks =~= seq!["png"@, "pdf"@, "eps"@]);
        assert(toks[0] == "png"@ && toks[1] == "pdf"@ && toks[2] == "eps"@);
    } else if png && pdf {
        assert(toks =~= seq!["png"@, "pdf"@]);
        assert(toks[0] == "png"@ && toks[1] == "pdf"@);
        assert(!toks.contains("eps"@)) by {
            assert forall|j: int| 0 <= j < toks.len() implies toks[j] != "eps"@ by {
                assert(j == 0 || j == 1);
            }
        }
    } else if png && eps {
        assert(toks =~= seq!["png"@, "eps"@]);
        assert(toks[0] == "png"@ && toks[1] == "eps"@);
        assert(!toks.contains("pdf"@)) by {
            assert forall|j: int| 0 <= j < toks.len() implies toks[j] != "pdf"@ by {
                assert(j == 0 || j == 1);
            }
        }
    } else if png {
        assert(toks =~= seq!["png"@]);
        assert(toks[0] == "png"@);
        assert(!toks.contains("pdf"@)) by {
            assert forall|j: int| 0 <= j < toks.len() implies toks[j] != "pdf"@ by {
                assert(j == 0);
            }
        }
        assert(!toks.contains("eps"@)) by {
            assert forall|j: int| 0 <= j < toks.len() implies toks[j] != "eps"@ by {
                assert(j == 0);
            }
        }
    } else if pdf && eps {
        assert(toks =~= seq!["pdf"@, "eps"@]);
        assert(toks[0] == "pdf"@ && toks[1] == "eps"@);
        assert(!toks.contains("png"@)) by {
            assert forall|j: int| 0 <= j < toks.len() implies toks[j] != "png"@ by {
                assert(j == 0 || j == 1);
            }
        }
    } else if pdf {
        assert(toks =~= seq!["pdf"@]);
        assert(toks[0] == "pdf"@);
        assert(!toks.contains("png"@)) by {
            assert forall|j: int| 0 <= j < toks.len() implies toks[j] != "png"@ by {
                assert(j == 0);
            }
        }
        assert(!toks.contains("eps"@)) by {
            assert forall|j: int| 0 <= j < toks.len() implies toks[j] != "eps"@ by {
                assert(j == 0);
            }
        }
    } else if eps {
        assert(toks =~= seq!["eps"@]);
        assert(toks[0] == "eps"@);
        assert(!toks.contains("png"@)) by {
            assert forall|j: int| 0 <= j < toks.len() implies toks[j] != "png"@ by {
                assert(j == 0);
            }
        }
        assert(!toks.contains("pdf"@)) by {
            assert forall|j: int| 0 <= j < toks.len() implies toks[j] != "pdf"@ by {
                assert(j == 0);
            }
        }
    } else {
        assert(toks =~= Seq::<Seq<char>>::empty());
    }
}

/// Serializing and parsing give each other back: reading the serialized
/// argument list of any argument set recovers that argument set. The one
/// input left out is a file path that itself begins with `--export-type=`:
/// such a token would be read back as a flag.
pub proof fn lemma_round_trip(m: ArgsModel)
    requires
        m.input is Some ==> !is_export_type_arg(m.input->0),
    ensures
        spec_parse(spec_export_args(m)) == m,
{
    reveal_strlit("--export-type=");
    let argv = spec_export_args(m);
    lemma_format_tokens_facts(m.png, m.pdf, m.eps);
    if m.png || m.pdf || m.eps {
        let toks = format_tokens(m.png, m.pdf, m.eps);
        let flag = "--export-type="@ + join_char(toks, ',');
        lemma_split_join(toks, ',');
        assert(is_export_type_arg(flag)) by {
            assert(flag.subrange(0, 14) =~= "--export-type="@);
        }
        assert(arg_csv(flag) =~= join_char(toks, ','));
        assert(arg_selects(flag, "png"@) <==> m.png);
        assert(arg_selects(flag, "pdf"@) <==> m.pdf);
        assert(arg_selects(flag, "eps"@) <==> m.eps);
        match m.input {
            Some(p) => {
                assert(argv =~= seq![flag, p]);
                lemma_parse_two(flag, p, m);
            },
            None => {
                assert(argv =~= seq![flag]);
                assert(argv.drop_last() =~= Seq::<Seq<char>>::empty());
                assert(spec_input_path(Seq::<Seq<char>>::empty()) is None);
                assert(spec_input_path(argv) is None);
                lemma_selects_one(argv);
            },
        }
    } else {
        match m.input {
            Some(p) => {
                assert(argv =~= seq![p]);
                assert(spec_input_path(argv) == Some(p));
                lemma_selects_one(argv);
                assert(!arg_selects(p, "png"@));
                assert(!arg_selects(p, "pdf"@));
                assert(!arg_selects(p, "eps"@));
            },
            None => {
                assert(argv =~= Seq::<Seq<char>>::empty());
                assert(!argv_selects(argv, "png"@));
                assert(!argv_selects(argv, "pdf"@));
                assert(!argv_selects(argv, "eps"@));
            },
        }
    }
}

/// In a one-token list, only that token can select a format.
proof fn lemma_selects_one(argv: Seq<Seq<char>>)
    requires
        argv.len() <= 1,
    ensures
        argv.len() == 1 ==> forall|t: Seq<char>| #[trigger]
            argv_selects(argv, t) <==> arg_selects(argv[0], t),
        argv.len() == 0 ==> forall|t: Seq<char>| !(#[trigger] argv_selects(argv, t)),
{
    if argv.len() == 1 {
        assert forall|t: Seq<char>| #[trigger] argv_selects(argv, t) <==> arg_selects(
            argv[0],
            t,
        ) by {
            if arg_selects(argv[0], t) {
                assert(argv_selects(argv, t));
            }
            if argv_selects(argv, t) {
                let i = choose|i: int| 0 <= i < argv.len() && #[trigger] arg_selects(argv[i], t);
                assert(i == 0);
            }
        }
    }
}

/// Parsing a flag token followed by one non-flag token: the flag decides the
/// formats, the non-flag token becomes the input path.
proof fn lemma_parse_two(flag: Seq<char>, p: Seq<char>, m: ArgsModel)
    requires
        is_export_type_arg(flag),
        !is_export_type_arg(p),
        arg_selects(flag, "png"@) <==> m.png,
        arg_selects(flag, "pdf"@) <==> m.pdf,
        arg_selects(flag, "eps"@) <==> m.eps,
        m.input == Some(p),
    ensures
        spec_parse(seq![flag, p]) == m,
{
    let argv = seq![flag, p];
    assert(spec_input_path(argv) == Some(p));
    assert forall|t: Seq<char>| #[trigger] argv_selects(argv, t) <==> arg_selects(flag, t) by {
        if arg_selects(flag, t) {
            assert(arg_selects(argv[0], t));
        }
        if argv_selects(argv, t) {
            let i = choose|i: int| 0 <= i < argv.len() && #[trigger] arg_selects(argv[i], t);
            assert(i == 0 || i == 1);
            assert(!arg_selects(p, t));
        }
    }
    assert(argv_selects(argv, "png"@) <==> m.png);
    assert(argv_selects(argv, "pdf"@) <==> m.pdf);
    assert(argv_selects(argv, "eps"@) <==> m.eps);
}

/// The order of the names inside `--export-type=` does not matter: two flag
/// tokens whose comma-separated names are the same as sets select the same
/// formats, and parsing them yields the same three flags.
pub proof fn lemma_parse_order_insensitive(a: Seq<char>, b: Seq<char>)
    requires
        is_export_type_arg(a),
        is_export_type_arg(b),
        forall|t: Seq<char>|
            split_char(arg_csv(a), ',').contains(t) <==> #[trigger] split_char(
                arg_csv(b),
                ',',
            ).contains(t),
    ensures
        spec_parse(seq![a]).png == spec_parse(seq![b]).png,
        spec_parse(seq![a]).pdf == spec_parse(seq![b]).pdf,
        spec_parse(seq![a]).eps == spec_parse(seq![b]).eps,
{
    lemma_selects_one(seq![a]);
    lemma_selects_one(seq![b]);
    assert(split_char(arg_csv(a), ',').contains("png"@) <==> split_char(
        arg_csv(b),
        ',',
    ).contains("png"@));
    assert(split_char(arg_csv(a), ',').contains("pdf"@) <==> split_char(
        arg_csv(b),
        ',',
    ).contains("pdf"@));
    assert(split_char(arg_csv(a), ',').contains("eps"@) <==> split_char(
        arg_csv(b),
        ',',
    ).contains("eps"@));
    assert(seq![a][0] == a);
    assert(seq![b][0] == b);
}

/// The serialization table, written out: each of the eight flag combinations
/// gives exactly the fixed `--export-type=` string, and the all-false
/// combination gives no flag at all.
pub proof fn lemma_export_type_table()
    ensures
        export_type_arg(true, true, true) == Some("--export-type=png,pdf,eps"@),
        export_type_arg(true, true, false) == Some("--export-type=png,pdf"@),
        export_type_arg(true, false, true) == Some("--export-type=png,eps"@),
        export_type_arg(true, false, false) == Some("--export-type=png"@),
        export_type_arg(false, true, true) == Some("--export-type=pdf,eps"@),
        export_type_arg(false, true, false) == Some("--export-type=pdf"@),
        export_type_arg(false, false, true) == Some("--export-type=eps"@),
        export_type_arg(false, false, false) == None::<Seq<char>>,
{
    reveal_with_fuel(join_char, 5);
    reveal_strlit("--export-type=");
    reveal_strlit("png");
    reveal_strlit("pdf");
    reveal_strlit("eps");
    reveal_strlit("--export-type=png,pdf,eps");
    reveal_strlit("--export-type=png,pdf");
    reveal_strlit("--export-type=png,eps");
    reveal_strlit("--export-type=png");
    reveal_strlit("--export-type=pdf,eps");
    reveal_strlit("--export-type=pdf");
    reveal_strlit("--export-type=eps");
    assert(format_tokens(true, true, true) =~= seq!["png"@, "pdf"@, "eps"@]);
    assert(format_tokens(true, true, false) =~= seq!["png"@, "pdf"@]);
    assert(format_tokens(true, false, true) =~= seq!["png"@, "eps"@]);
    assert(format_tokens(true, false, false) =~= seq!["png"@]);
    assert(format_tokens(false, true, true) =~= seq!["pdf"@, "eps"@]);
    assert(format_tokens(false, true, false) =~= seq!["pdf"@]);
    assert(format_tokens(false, false, true) =~= seq!["eps"@]);
    assert(seq!["png"@, "pdf"@, "eps"@].drop_first() =~= seq!["pdf"@, "eps"@]);
    assert(seq!["pdf"@, "eps"@].drop_first() =~= seq!["eps"@]);
    assert(seq!["png"@, "pdf"@].drop_first() =~= seq!["pdf"@]);
    assert(seq!["png"@, "eps"@].drop_first() =~= seq!["eps"@]);
    assert("--export-type="@ + join_char(seq!["png"@, "pdf"@, "eps"@], ',')
        =~= "--export-type=png,pdf,eps"@);
    assert("--export-type="@ + join_char(seq!["png"@, "pdf"@], ',') =~= "--export-type=png,pdf"@);
    assert("--export-type="@ + join_char(seq!["png"@, "eps"@], ',') =~= "--export-type=png,eps"@);
    assert("--export-type="@ + join_char(seq!["png"@], ',') =~= "--export-type=png"@);
    assert("--export-type="@ + join_char(seq!["pdf"@, "eps"@], ',') =~= "--export-type=pdf,eps"@);
    assert("--export-type="@ + join_char(seq!["pdf"@], ',') =~= "--export-type=pdf"@);
    assert("--export-type="@ + join_char(seq!["eps"@], ',') =~= "--export-type=eps"@);
}

} // verus!
