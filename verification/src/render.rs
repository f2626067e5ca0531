//! The result formatter: renders collected results as text, one block per
//! file — the path on its own line, then each matching line as
//! `<line_number>: <content>`. Paths and line numbers may be wrapped in
//! terminal colour codes; everything else is a pure projection of the data.
use vstd::prelude::*;
use vstd::string::StrSliceExecFns;
use vstd::string::StringExecFns;
use colored::Colorize;
use crate::GrepOccourence;
use crate::GrepResult;

verus! {

/// The decimal digits of `n`, most significant first.
pub open spec fn spec_decimal(n: nat) -> Seq<char>
    decreases n,
{
    if n < 10 {
        seq![digit_char(n)]
    } else {
        spec_decimal(n / 10).push(digit_char(n % 10))
    }
}

/// The digit character for a value below ten.
pub open spec fn digit_char(d: nat) -> char {
    if d == 0 {
        '0'
    } else if d == 1 {
        '1'
    } else if d == 2 {
        '2'
    } else if d == 3 {
        '3'
    } else if d == 4 {
        '4'
    } else if d == 5 {
        '5'
    } else if d == 6 {
        '6'
    } else if d == 7 {
        '7'
    } else if d == 8 {
        '8'
    } else {
        '9'
    }
}

/// `text` holds no terminal escape character.
pub open spec fn esc_free(text: Seq<char>) -> bool {
    forall|i: int| 0 <= i < text.len() ==> text[i] != '\u{1b}'
}

/// `painted` is `orig` either unchanged or wrapped in the green colour code
/// and the colour reset code.
pub open spec fn green_affix(orig: Seq<char>, painted: Seq<char>) -> bool {
    painted == orig || painted == "\u{1b}[32m"@ + orig + "\u{1b}[0m"@
}

/// `painted` is `orig` either unchanged or wrapped in the cyan colour code
/// and the colour reset code, provided `orig` holds no escape character.
pub open spec fn cyan_affix(orig: Seq<char>, painted: Seq<char>) -> bool {
    esc_free(orig) ==> (painted == orig || painted == "\u{1b}[36m"@ + orig + "\u{1b}[0m"@)
}

/// Relies on colored::Colorize::green and the Display of ColoredString:
/// whether colour output is enabled decides whether the text is wrapped in
/// the green and reset escape codes or returned unchanged; text that holds
/// no escape character is never rewritten inside.
#[verifier::external_body]
fn paint_green(s: &str) -> (r: String)
    ensures
        esc_free(s@) ==> green_affix(s@, r@),
{
    format!("{}", s.green())
}

/// Relies on colored::Colorize::cyan and the Display of ColoredString:
/// whether colour output is enabled decides whether the text is wrapped in
/// the cyan and reset escape codes or returned unchanged; text that holds
/// no escape character is never rewritten inside.
#[verifier::external_body]
fn paint_cyan(s: &str) -> (r: String)
    ensures
        cyan_affix(s@, r@),
{
    format!("{}", s.cyan())
}

/// The string slice holding one decimal digit.
fn digit_str(d: u32) -> (r: &'static str)
    requires
        d < 10,
    ensures
        r@ == seq![digit_char(d as nat)],
{
    let r: &'static str = if d == 0 {
        "0"
    } else if d == 1 {
        "1"
    } else if d == 2 {
        "2"
    } else if d == 3 {
        "3"
    } else if d == 4 {
        "4"
    } else if d == 5 {
        "5"
    } else if d == 6 {
        "6"
    } else if d == 7 {
        "7"
    } else if d == 8 {
        "8"
    } else {
        "9"
    };
    proof {
        reveal_strlit("0");
        reveal_strlit("1");
        reveal_strlit("2");
        reveal_strlit("3");
        reveal_strlit("4");
        reveal_strlit("5");
        reveal_strlit("6");
        reveal_strlit("7");
        reveal_strlit("8");
        reveal_strlit("9");
        assert(r@ =~= seq![digit_char(d as nat)]);
    }
    r
}

/// Renders `n` in decimal.
pub fn u32_to_string(n: u32) -> (r: String)
    ensures
        r@ == spec_decimal(n as nat),
    decreases n,
{
    if n < 10 {
        String::from_str(digit_str(n))
    } else {
        let mut prefix = u32_to_string(n / 10);
        prefix.append(digit_str(n % 10));
        proof {
            assert(spec_decimal((n / 10) as nat) + seq![digit_char((n % 10) as nat)]
                =~= spec_decimal((n / 10) as nat).push(digit_char((n % 10) as nat)));
        }
        prefix
    }
}

/// Decimal digits hold no escape character.
proof fn lemma_decimal_esc_free(n: nat)
    ensures
        esc_free(spec_decimal(n)),
    decreases n,
{
    if n >= 10 {
        lemma_decimal_esc_free(n / 10);
    }
}

/// `out` renders the occurrence with line number `n` and line text `content`:
/// the possibly green-painted decimal line number, a colon and a space, then
/// the line verbatim.
pub open spec fn occ_rendered(n: nat, content: Seq<char>, out: Seq<char>) -> bool {
    exists|num: Seq<char>|
        #[trigger] green_affix(spec_decimal(n), num) && out == num + ": "@ + content
}

/// `out` renders `occs` in order: for each occurrence a newline, then the
/// occurrence's own rendering.
pub open spec fn occs_rendered(occs: Seq<GrepOccourence>, out: Seq<char>) -> bool
    decreases occs.len(),
{
    if occs.len() == 0 {
        out == Seq::<char>::empty()
    } else {
        exists|head: Seq<char>, rest: Seq<char>|
            occ_rendered(occs[0].line_number as nat, occs[0].content@, head) && occs_rendered(
                occs.drop_first(),
                rest,
            ) && out == "\n"@ + head + rest
    }
}

/// `out` renders one file's result: the possibly cyan-painted path, then the
/// renderings of its occurrences.
pub open spec fn result_rendered(
    filename: Seq<char>,
    occs: Seq<GrepOccourence>,
    out: Seq<char>,
) -> bool {
    exists|name: Seq<char>, rest: Seq<char>|
        #[trigger] cyan_affix(filename, name) && #[trigger] occs_rendered(occs, rest) && out == name
            + rest
}

/// `out` renders a whole outcome: each file's rendering followed by a
/// newline, in outcome order.
pub open spec fn results_rendered(results: Seq<GrepResult>, out: Seq<char>) -> bool
    decreases results.len(),
{
    if results.len() == 0 {
        out == Seq::<char>::empty()
    } else {
        exists|head: Seq<char>, rest: Seq<char>|
            result_rendered(results[0].filename@, results[0].occourences@, head)
                && results_rendered(results.drop_first(), rest) && out == head + "\n"@ + rest
    }
}

/// A rendering of the first occurrence and a rendering of the remaining ones
/// make a rendering of all of them.
proof fn lemma_occs_rendered_cons(
    occs: Seq<GrepOccourence>,
    head: Seq<char>,
    rest: Seq<char>,
    out: Seq<char>,
)
    requires
        occs.len() > 0,
        occ_rendered(occs[0].line_number as nat, occs[0].content@, head),
        occs_rendered(occs.drop_first(), rest),
        out == "\n"@ + head + rest,
    ensures
        occs_rendered(occs, out),
{
}

/// A rendering of the first result and a rendering of the remaining ones
/// make a rendering of all of them.
proof fn lemma_results_rendered_cons(
    results: Seq<GrepResult>,
    head: Seq<char>,
    rest: Seq<char>,
    out: Seq<char>,
)
    requires
        results.len() > 0,
        result_rendered(results[0].filename@, results[0].occourences@, head),
        results_rendered(results.drop_first(), rest),
        out == head + "\n"@ + rest,
    ensures
        results_rendered(results, out),
{
}

impl GrepOccourence {
    /// Renders this occurrence as `<line_number>: <content>`, the line number
    /// painted green when colour output is enabled.
    pub fn render(&self) -> (r: String)
        ensures
            occ_rendered(self.line_number as nat, self.content@, r@),
    {
        let digits = u32_to_string(self.line_number);
        proof {
            lemma_decimal_esc_free(self.line_number as nat);
        }
        let painted = paint_green(digits.as_str());
        let r = painted.concat(": ").concat(self.content.as_str());
        proof {
            assert(occ_rendered(self.line_number as nat, self.content@, r@));
        }
        r
    }
}

/// Renders the occurrences of one result from index `i` on.
fn render_occs(occs: &Vec<GrepOccourence>, i: usize) -> (r: String)
    requires
        i <= occs.len(),
    ensures
        occs_rendered(occs@.skip(i as int), r@),
    decreases occs@.len() - i,
{
    if i == occs.len() {
        let r = String::new();
        proof {
            assert(occs@.skip(i as int) =~= Seq::<GrepOccourence>::empty());
        }
        r
    } else {
        let occ: &GrepOccourence = &occs[i];
        let head = occ.render();
        let rest = render_occs(occs, i + 1);
        let r = String::from_str("\n").concat(head.as_str()).concat(rest.as_str());
        proof {
            let tail = occs@.skip(i as int);
            assert(tail[0] == occs@[i as int]);
            assert(tail.drop_first() =~= occs@.skip(i as int + 1));
            lemma_occs_rendered_cons(tail, head@, rest@, r@);
        }
        r
    }
}

impl GrepResult {
    /// Renders this result: the path, painted cyan when colour output is
    /// enabled, then each occurrence on a line of its own.
    pub fn render(&self) -> (r: String)
        ensures
            result_rendered(self.filename@, self.occourences@, r@),
    {
        let name = paint_cyan(self.filename.as_str());
        let rest = render_occs(&self.occourences, 0);
        proof {
            assert(self.occourences@.skip(0) =~= self.occourences@);
        }
        let r = name.concat(rest.as_str());
        proof {
            assert(result_rendered(self.filename@, self.occourences@, r@));
        }
        r
    }
}

/// Renders a whole outcome from index `i` on.
fn render_results(results: &Vec<GrepResult>, i: usize) -> (r: String)
    requires
        i <= results.len(),
    ensures
        results_rendered(results@.skip(i as int), r@),
    decreases results@.len() - i,
{
    if i == results.len() {
        let r = String::new();
        proof {
            assert(results@.skip(i as int) =~= Seq::<GrepResult>::empty());
        }
        r
    } else {
        let res: &GrepResult = &results[i];
        let head = res.render();
        let rest = render_results(results, i + 1);
        let r = head.concat("\n").concat(rest.as_str());
        proof {
            let tail = results@.skip(i as int);
            assert(tail[0] == results@[i as int]);
            assert(tail.drop_first() =~= results@.skip(i as int + 1));
            lemma_results_rendered_cons(tail, head@, rest@, r@);
        }
        r
    }
}

/// Renders a whole outcome: each file's block followed by a newline, in
/// outcome order.
pub fn format_results(results: &Vec<GrepResult>) -> (r: String)
    ensures
        results_rendered(results@, r@),
{
    let r = render_results(results, 0);
    proof {
        assert(results@.skip(0) =~= results@);
    }
    r
}

} // verus!
