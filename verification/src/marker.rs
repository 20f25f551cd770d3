//! Environment markers: the boolean-expression language that conditions a
//! dependency on the target environment and on requested extras.

use vstd::prelude::*;
use vstd::string::StrSliceExecFns;
use crate::name::{ExtraName, normal_form};

verus! {

/// A comparison operator of one marker expression.
#[derive(Debug, Clone, Copy, PartialEq, Eq, Structural)]
pub enum MarkerOperator {
    /// `==`
    Equal,
    /// `!=`
    NotEqual,
    /// `<=`
    LessEqual,
    /// `<`
    Less,
    /// `>=`
    GreaterEqual,
    /// `>`
    Greater,
    /// `~=`
    TildeEqual,
    /// `===`
    ExactEqual,
    /// `in`
    In,
    /// `not in`
    NotIn,
}

/// An environment attribute a marker may speak of.
#[derive(Debug, Clone, Copy, PartialEq, Eq, Structural)]
pub enum MarkerVariable {
    ImplementationName,
    ImplementationVersion,
    OsName,
    PlatformMachine,
    PlatformPythonImplementation,
    PlatformRelease,
    PlatformSystem,
    PlatformVersion,
    PythonFullVersion,
    PythonVersion,
    SysPlatform,
    /// The requested-extras pseudo-variable.
    Extra,
}

/// The mathematical content of one marker operand.
pub ghost enum MarkerValueView {
    Variable(MarkerVariable),
    Literal(Seq<char>),
}

/// One operand of a marker expression: an environment attribute or a quoted
/// string.
#[derive(Debug)]
pub enum MarkerValue {
    Variable(MarkerVariable),
    Literal(String),
}

impl View for MarkerValue {
    type V = MarkerValueView;

    open spec fn view(&self) -> MarkerValueView {
        match self {
            MarkerValue::Variable(v) => MarkerValueView::Variable(*v),
            MarkerValue::Literal(t) => MarkerValueView::Literal(t@),
        }
    }
}

/// The mathematical content of one marker comparison.
pub ghost struct MarkerExpressionView {
    pub left: MarkerValueView,
    pub op: MarkerOperator,
    pub right: MarkerValueView,
}

/// One comparison between two marker operands.
#[derive(Debug)]
pub struct MarkerExpression {
    pub left: MarkerValue,
    pub op: MarkerOperator,
    pub right: MarkerValue,
}

impl View for MarkerExpression {
    type V = MarkerExpressionView;

    open spec fn view(&self) -> MarkerExpressionView {
        MarkerExpressionView { left: self.left@, op: self.op, right: self.right@ }
    }
}

/// The mathematical content of a marker tree.
pub ghost enum MarkerTreeView {
    Expression(MarkerExpressionView),
    And(Box<MarkerTreeView>, Box<MarkerTreeView>),
    Or(Box<MarkerTreeView>, Box<MarkerTreeView>),
}

/// An immutable boolean-expression tree over marker comparisons.
#[derive(Debug)]
pub enum MarkerTree {
    Expression(MarkerExpression),
    And(Box<MarkerTree>, Box<MarkerTree>),
    Or(Box<MarkerTree>, Box<MarkerTree>),
}

/// The view of a marker tree, expression by expression.
pub open spec fn marker_tree_view(t: &MarkerTree) -> MarkerTreeView
    decreases t,
{
    match t {
        MarkerTree::Expression(e) => MarkerTreeView::Expression(e@),
        MarkerTree::And(a, b) => MarkerTreeView::And(
            Box::new(marker_tree_view(a)),
            Box::new(marker_tree_view(b)),
        ),
        MarkerTree::Or(a, b) => MarkerTreeView::Or(
            Box::new(marker_tree_view(a)),
            Box::new(marker_tree_view(b)),
        ),
    }
}

impl View for MarkerTree {
    type V = MarkerTreeView;

    open spec fn view(&self) -> MarkerTreeView {
        marker_tree_view(self)
    }
}

impl Clone for MarkerValue {
    fn clone(&self) -> (r: Self)
        ensures
            r@ == self@,
    {
        match self {
            MarkerValue::Variable(v) => MarkerValue::Variable(*v),
            MarkerValue::Literal(t) => MarkerValue::Literal(t.clone()),
        }
    }
}

impl Clone for MarkerExpression {
    fn clone(&self) -> (r: Self)
        ensures
            r@ == self@,
    {
        MarkerExpression { left: self.left.clone(), op: self.op, right: self.right.clone() }
    }
}

impl Clone for MarkerTree {
    fn clone(&self) -> (r: Self)
        ensures
            r@ == self@,
        decreases self,
    {
        match self {
            MarkerTree::Expression(e) => MarkerTree::Expression(e.clone()),
            MarkerTree::And(a, b) => MarkerTree::And(
                Box::new((**a).clone()),
                Box::new((**b).clone()),
            ),
            MarkerTree::Or(a, b) => MarkerTree::Or(
                Box::new((**a).clone()),
                Box::new((**b).clone()),
            ),
        }
    }
}

/// The mathematical content of a target environment.
pub ghost struct MarkerEnvironmentView {
    pub implementation_name: Seq<char>,
    pub implementation_version: Seq<char>,
    pub os_name: Seq<char>,
    pub platform_machine: Seq<char>,
    pub platform_python_implementation: Seq<char>,
    pub platform_release: Seq<char>,
    pub platform_system: Seq<char>,
    pub platform_version: Seq<char>,
    pub python_full_version: Seq<char>,
    pub python_version: Seq<char>,
    pub sys_platform: Seq<char>,
}

/// The static attributes of a target environment a marker is evaluated
/// against.
#[derive(Debug)]
pub struct MarkerEnvironment {
    pub implementation_name: String,
    pub implementation_version: String,
    pub os_name: String,
    pub platform_machine: String,
    pub platform_python_implementation: String,
    pub platform_release: String,
    pub platform_system: String,
    pub platform_version: String,
    pub python_full_version: String,
    pub python_version: String,
    pub sys_platform: String,
}

impl View for MarkerEnvironment {
    type V = MarkerEnvironmentView;

    open spec fn view(&self) -> MarkerEnvironmentView {
        MarkerEnvironmentView {
            implementation_name: self.implementation_name@,
            implementation_version: self.implementation_version@,
            os_name: self.os_name@,
            platform_machine: self.platform_machine@,
            platform_python_implementation: self.platform_python_implementation@,
            platform_release: self.platform_release@,
            platform_system: self.platform_system@,
            platform_version: self.platform_version@,
            python_full_version: self.python_full_version@,
            python_version: self.python_version@,
            sys_platform: self.sys_platform@,
        }
    }
}

impl Clone for MarkerEnvironment {
    fn clone(&self) -> (r: Self)
        ensures
            r@ == self@,
    {
        MarkerEnvironment {
            implementation_name: self.implementation_name.clone(),
            implementation_version: self.implementation_version.clone(),
            os_name: self.os_name.clone(),
            platform_machine: self.platform_machine.clone(),
            platform_python_implementation: self.platform_python_implementation.clone(),
            platform_release: self.platform_release.clone(),
            platform_system: self.platform_system.clone(),
            platform_version: self.platform_version.clone(),
            python_full_version: self.python_full_version.clone(),
            python_version: self.python_version.clone(),
            sys_platform: self.sys_platform.clone(),
        }
    }
}

/// The value an environment gives to a marker variable. The extras
/// pseudo-variable has no single value and is handled by the evaluator.
pub open spec fn env_value(env: MarkerEnvironmentView, v: MarkerVariable) -> Seq<char> {
    match v {
        MarkerVariable::ImplementationName => env.implementation_name,
        MarkerVariable::ImplementationVersion => env.implementation_version,
        MarkerVariable::OsName => env.os_name,
        MarkerVariable::PlatformMachine => env.platform_machine,
        MarkerVariable::PlatformPythonImplementation => env.platform_python_implementation,
        MarkerVariable::PlatformRelease => env.platform_release,
        MarkerVariable::PlatformSystem => env.platform_system,
        MarkerVariable::PlatformVersion => env.platform_version,
        MarkerVariable::PythonFullVersion => env.python_full_version,
        MarkerVariable::PythonVersion => env.python_version,
        MarkerVariable::SysPlatform => env.sys_platform,
        MarkerVariable::Extra => Seq::empty(),
    }
}

// ---------------------------------------------------------------------------
// Release-number comparison.
// ---------------------------------------------------------------------------

/// An ASCII digit.
pub open spec fn is_digit(c: char) -> bool {
    '0' <= c && c <= '9'
}

/// The integer a digit stands for.
pub open spec fn digit_val(c: char) -> int {
    c as int - 48
}

/// The integer written by a digit sequence.
pub open spec fn digits_value(s: Seq<char>) -> int
    decreases s.len(),
{
    if s.len() == 0 {
        0
    } else {
        digits_value(s.drop_last()) * 10 + digit_val(s.last())
    }
}

/// The position of the first `.` at or after `i`, or the end of the text.
pub open spec fn find_dot(s: Seq<char>, i: int) -> int
    decreases s.len() - i,
{
    if 0 <= i < s.len() && s[i] != '.' {
        find_dot(s, i + 1)
    } else {
        i
    }
}

pub proof fn lemma_find_dot_bounds(s: Seq<char>, i: int)
    requires
        0 <= i <= s.len(),
    ensures
        i <= find_dot(s, i) <= s.len(),
        find_dot(s, i) < s.len() ==> s[find_dot(s, i)] == '.',
        forall|k: int| i <= k < find_dot(s, i) ==> #[trigger] s[k] != '.',
    decreases s.len() - i,
{
    if i < s.len() && s[i] != '.' {
        lemma_find_dot_bounds(s, i + 1);
    }
}

/// The release numbers written in `s` from position `i` on: nonempty groups
/// of at most 18 digits, separated by single dots. Any other shape is not a
/// release and compares as text.
pub open spec fn release_from(s: Seq<char>, i: int) -> Option<Seq<int>>
    decreases s.len() - i,
    via release_from_decreases
{
    if !(0 <= i <= s.len()) {
        None
    } else {
        let j = find_dot(s, i);
        if j == i || j - i > 18 || !(forall|k: int| i <= k < j ==> is_digit(#[trigger] s[k])) {
            None
        } else {
            let v = digits_value(s.subrange(i, j));
            if j >= s.len() {
                Some(seq![v])
            } else {
                match release_from(s, j + 1) {
                    None => None,
                    Some(rest) => Some(seq![v] + rest),
                }
            }
        }
    }
}

#[via_fn]
proof fn release_from_decreases(s: Seq<char>, i: int) {
    if 0 <= i <= s.len() {
        lemma_find_dot_bounds(s, i);
    }
}

/// The release numbers of a whole text, when it has that shape.
pub open spec fn release_of(s: Seq<char>) -> Option<Seq<int>> {
    release_from(s, 0)
}

/// Comparison of two releases from component `i` on, with the shorter one
/// extended by zeros: negative, zero or positive as `a` is below, at or
/// above `b`.
pub open spec fn release_cmp_from(a: Seq<int>, b: Seq<int>, i: int) -> int
    decreases (if a.len() > b.len() { a.len() } else { b.len() }) - i,
{
    if i < 0 || (i >= a.len() && i >= b.len()) {
        0
    } else {
        let ha = if i < a.len() { a[i] } else { 0 };
        let hb = if i < b.len() { b[i] } else { 0 };
        if ha < hb {
            -1
        } else if ha > hb {
            1
        } else {
            release_cmp_from(a, b, i + 1)
        }
    }
}

/// Comparison of two releases as wholes.
pub open spec fn release_cmp(a: Seq<int>, b: Seq<int>) -> int {
    release_cmp_from(a, b, 0)
}

/// Comparison of the first `m` components only, with zero extension.
pub open spec fn release_cmp_upto(a: Seq<int>, b: Seq<int>, i: int, m: int) -> int
    decreases m - i,
{
    if i >= m {
        0
    } else {
        let ha = if 0 <= i < a.len() { a[i] } else { 0 };
        let hb = if 0 <= i < b.len() { b[i] } else { 0 };
        if ha < hb {
            -1
        } else if ha > hb {
            1
        } else {
            release_cmp_upto(a, b, i + 1, m)
        }
    }
}

// ---------------------------------------------------------------------------
// Text comparison.
// ---------------------------------------------------------------------------

/// Lexicographic comparison of two texts from position `i` on.
pub open spec fn lex_cmp_from(a: Seq<char>, b: Seq<char>, i: int) -> int
    decreases (if a.len() > b.len() { a.len() } else { b.len() }) - i,
{
    if i < 0 || (i >= a.len() && i >= b.len()) {
        0
    } else if i >= a.len() {
        -1
    } else if i >= b.len() {
        1
    } else if a[i] < b[i] {
        -1
    } else if a[i] > b[i] {
        1
    } else {
        lex_cmp_from(a, b, i + 1)
    }
}

/// Lexicographic comparison of two texts.
pub open spec fn lex_cmp(a: Seq<char>, b: Seq<char>) -> int {
    lex_cmp_from(a, b, 0)
}

/// Whether `needle` occurs in `hay` starting at position `k`.
pub open spec fn occurs_at(hay: Seq<char>, needle: Seq<char>, k: int) -> bool {
    0 <= k && k + needle.len() <= hay.len() && hay.subrange(k, k + needle.len()) == needle
}

/// Whether `needle` occurs anywhere in `hay`.
pub open spec fn seq_has(hay: Seq<char>, needle: Seq<char>) -> bool {
    exists|k: int| occurs_at(hay, needle, k)
}

// ---------------------------------------------------------------------------
// Comparison semantics.
// ---------------------------------------------------------------------------

/// What one marker comparison means on two values. Release-shaped values
/// compare numerically; other values compare as text, lexicographically for
/// the order operators. `~=` holds only of releases; `in` and `not in` test
/// for a substring.
pub open spec fn marker_compare(op: MarkerOperator, l: Seq<char>, r: Seq<char>) -> bool {
    let ln = release_of(l);
    let rn = release_of(r);
    let both = ln is Some && rn is Some;
    match op {
        MarkerOperator::Equal => if both {
            release_cmp(ln.unwrap(), rn.unwrap()) == 0
        } else {
            l == r
        },
        MarkerOperator::NotEqual => if both {
            release_cmp(ln.unwrap(), rn.unwrap()) != 0
        } else {
            l != r
        },
        MarkerOperator::LessEqual => if both {
            release_cmp(ln.unwrap(), rn.unwrap()) <= 0
        } else {
            lex_cmp(l, r) <= 0
        },
        MarkerOperator::Less => if both {
            release_cmp(ln.unwrap(), rn.unwrap()) < 0
        } else {
            lex_cmp(l, r) < 0
        },
        MarkerOperator::GreaterEqual => if both {
            release_cmp(ln.unwrap(), rn.unwrap()) >= 0
        } else {
            lex_cmp(l, r) >= 0
        },
        MarkerOperator::Greater => if both {
            release_cmp(ln.unwrap(), rn.unwrap()) > 0
        } else {
            lex_cmp(l, r) > 0
        },
        MarkerOperator::TildeEqual => both && rn.unwrap().len() >= 2 && release_cmp(
            ln.unwrap(),
            rn.unwrap(),
        ) >= 0 && release_cmp_upto(ln.unwrap(), rn.unwrap(), 0, rn.unwrap().len() - 1) == 0,
        MarkerOperator::ExactEqual => l == r,
        MarkerOperator::In => seq_has(r, l),
        MarkerOperator::NotIn => !seq_has(r, l),
    }
}

/// Whether some requested extra is the given (normalized) name.
pub open spec fn extras_have(extras: Seq<Seq<char>>, x: Seq<char>) -> bool {
    exists|i: int| 0 <= i < extras.len() && extras[i] == x
}

/// What an `extra`-comparison means: equality tests membership of the
/// normalized literal in the requested extras; every other operator on
/// `extra` is false.
pub open spec fn extra_compare(op: MarkerOperator, lit: Seq<char>, extras: Seq<Seq<char>>) -> bool {
    match op {
        MarkerOperator::Equal => extras_have(extras, normal_form(lit)),
        MarkerOperator::NotEqual => !extras_have(extras, normal_form(lit)),
        _ => false,
    }
}

/// What one marker expression means against an environment and a set of
/// requested extras.
pub open spec fn eval_expression(
    e: MarkerExpressionView,
    env: MarkerEnvironmentView,
    extras: Seq<Seq<char>>,
) -> bool {
    match (e.left, e.right) {
        (MarkerValueView::Variable(MarkerVariable::Extra), MarkerValueView::Literal(t)) =>
            extra_compare(e.op, t, extras),
        (MarkerValueView::Literal(t), MarkerValueView::Variable(MarkerVariable::Extra)) =>
            extra_compare(e.op, t, extras),
        (MarkerValueView::Variable(v), MarkerValueView::Literal(t)) =>
            marker_compare(e.op, env_value(env, v), t),
        (MarkerValueView::Literal(t), MarkerValueView::Variable(v)) =>
            marker_compare(e.op, t, env_value(env, v)),
        (MarkerValueView::Literal(a), MarkerValueView::Literal(b)) =>
            marker_compare(e.op, a, b),
        (MarkerValueView::Variable(MarkerVariable::Extra), MarkerValueView::Variable(_)) => false,
        (MarkerValueView::Variable(_), MarkerValueView::Variable(MarkerVariable::Extra)) => false,
        (MarkerValueView::Variable(v1), MarkerValueView::Variable(v2)) =>
            marker_compare(e.op, env_value(env, v1), env_value(env, v2)),
    }
}

/// What a whole marker tree means.
pub open spec fn eval_marker(
    t: MarkerTreeView,
    env: MarkerEnvironmentView,
    extras: Seq<Seq<char>>,
) -> bool
    decreases t,
{
    match t {
        MarkerTreeView::Expression(e) => eval_expression(e, env, extras),
        MarkerTreeView::And(a, b) => eval_marker(*a, env, extras) && eval_marker(*b, env, extras),
        MarkerTreeView::Or(a, b) => eval_marker(*a, env, extras) || eval_marker(*b, env, extras),
    }
}

/// The views of a list of extras.
pub open spec fn extras_view(extras: Seq<ExtraName>) -> Seq<Seq<char>> {
    extras.map_values(|e: ExtraName| e@)
}

// ---------------------------------------------------------------------------
// The executable evaluator.
// ---------------------------------------------------------------------------

/// Powers of ten, for bounding digit groups.
pub open spec fn ten_pow(n: nat) -> int
    decreases n,
{
    if n == 0 {
        1
    } else {
        10 * ten_pow((n - 1) as nat)
    }
}

/// A digit group of length `n` writes a value below `ten_pow(n)`.
proof fn lemma_digits_bound(s: Seq<char>)
    requires
        forall|k: int| 0 <= k < s.len() ==> is_digit(#[trigger] s[k]),
    ensures
        0 <= digits_value(s) < ten_pow(s.len()),
    decreases s.len(),
{
    if s.len() > 0 {
        lemma_digits_bound(s.drop_last());
    }
}

proof fn lemma_ten_pow_mono(a: nat, b: nat)
    requires
        a <= b,
    ensures
        ten_pow(a) <= ten_pow(b),
    decreases b,
{
    if a < b {
        lemma_ten_pow_mono(a, (b - 1) as nat);
        lemma_digits_bound(Seq::empty());
        assert(ten_pow(b) == 10 * ten_pow((b - 1) as nat));
        assert(ten_pow(a) >= 1) by {
            lemma_ten_pow_pos(a);
        }
    }
}

proof fn lemma_ten_pow_pos(n: nat)
    ensures
        ten_pow(n) >= 1,
    decreases n,
{
    if n > 0 {
        lemma_ten_pow_pos((n - 1) as nat);
    }
}

proof fn lemma_ten_pow_18()
    ensures
        ten_pow(18) == 0x0DE0B6B3A7640000,
{
    reveal_with_fuel(ten_pow, 19);
}

/// Finds the first `.` at or after `i`.
fn scan_dot(s: &str, i: usize) -> (j: usize)
    requires
        i <= s@.len(),
    ensures
        j as int == find_dot(s@, i as int),
        i <= j <= s@.len(),
    decreases s@.len() - i,
{
    proof {
        lemma_find_dot_bounds(s@, i as int);
    }
    let n = s.unicode_len();
    let mut j = i;
    while j < n && not_dot_at(s, j)
        invariant
            i <= j <= n,
            n == s@.len(),
            find_dot(s@, i as int) == find_dot(s@, j as int),
        decreases n - j,
    {
        j = j + 1;
    }
    j
}

/// Whether the character at `j` is anything but a dot.
fn not_dot_at(s: &str, j: usize) -> (r: bool)
    requires
        j < s@.len(),
    ensures
        r == (s@[j as int] != '.'),
{
    s.get_char(j) != '.'
}

/// Parses release-shaped text into its numbers, or decides it has no such
/// shape.
fn parse_release(s: &str) -> (r: Option<Vec<u64>>)
    ensures
        match r {
            Some(v) => release_of(s@) == Some(v@.map_values(|x: u64| x as int)),
            None => release_of(s@) is None,
        },
{
    let n = s.unicode_len();
    let mut out: Vec<u64> = Vec::new();
    let mut i: usize = 0;
    loop
        invariant_except_break
            match release_from(s@, i as int) {
                Some(rest) => release_of(s@) == Some(
                    out@.map_values(|x: u64| x as int) + rest,
                ),
                None => release_of(s@) is None,
            },
        invariant
            i <= n,
            n == s@.len(),
        ensures
            match release_of(s@) {
                Some(all) => out@.map_values(|x: u64| x as int) == all,
                None => false,
            },
        decreases n - i,
    {
        proof {
            lemma_find_dot_bounds(s@, i as int);
        }
        let j = scan_dot(s, i);
        if j == i || j - i > 18 {
            return None;
        }
        let mut val: u64 = 0;
        let mut k = i;
        while k < j
            invariant
                i <= k <= j <= n,
                n == s@.len(),
                j != i,
                j - i <= 18,
                j as int == find_dot(s@, i as int),
                forall|m: int| i <= m < k ==> is_digit(#[trigger] s@[m]),
                val as int == digits_value(s@.subrange(i as int, k as int)),
                val as int >= 0,
                match release_from(s@, i as int) {
                    Some(rest) => release_of(s@) == Some(
                        out@.map_values(|x: u64| x as int) + rest,
                    ),
                    None => release_of(s@) is None,
                },
            decreases j - k,
        {
            let c = s.get_char(k);
            let u = c as u32;
            if !(48 <= u && u <= 57) {
                return None;
            }
            let d: u64 = (u - 48) as u64;
            proof {
                let pre = s@.subrange(i as int, k as int);
                lemma_digits_bound(pre);
                lemma_ten_pow_mono(pre.len() as nat, 17);
                lemma_ten_pow_18();
                lemma_ten_pow_mono(17, 18);
                assert(s@.subrange(i as int, k + 1).drop_last() =~= pre);
            }
            val = val * 10 + d;
            k = k + 1;
        }
        proof {
            assert(s@.subrange(i as int, j as int) =~= s@.subrange(i as int, j as int));
        }
        let ghost prefix = out@.map_values(|x: u64| x as int);
        out.push(val);
        assert(out@.map_values(|x: u64| x as int) =~= prefix + seq![val as int]);
        if j >= n {
            assert(release_from(s@, i as int) == Some(seq![val as int]));
            assert(prefix + (seq![val as int]) =~= prefix + seq![val as int]);
            break;
        }
        proof {
            let restopt = release_from(s@, j + 1);
            if restopt is Some {
                let rest = restopt.unwrap();
                assert(prefix + (seq![val as int] + rest) =~= (prefix + seq![val as int]) + rest);
            }
        }
        i = j + 1;
    }
    Some(out)
}

/// Compares two releases, extending the shorter by zeros.
fn release_compare(a: &Vec<u64>, b: &Vec<u64>) -> (r: i32)
    ensures
        r as int == release_cmp(
            a@.map_values(|x: u64| x as int),
            b@.map_values(|x: u64| x as int),
        ),
{
    let ghost av = a@.map_values(|x: u64| x as int);
    let ghost bv = b@.map_values(|x: u64| x as int);
    let alen = a.len();
    let blen = b.len();
    let top = if alen > blen { alen } else { blen };
    let mut i: usize = 0;
    while i < top
        invariant
            0 <= i <= top,
            alen == a@.len() && blen == b@.len(),
            top == (if alen > blen { alen } else { blen }),
            av == a@.map_values(|x: u64| x as int),
            bv == b@.map_values(|x: u64| x as int),
            release_cmp(av, bv) == release_cmp_from(av, bv, i as int),
        decreases top - i,
    {
        let ha: u64 = if i < alen { a[i] } else { 0 };
        let hb: u64 = if i < blen { b[i] } else { 0 };
        if ha < hb {
            return -1;
        }
        if ha > hb {
            return 1;
        }
        i = i + 1;
    }
    0
}

/// Compares the first `m` components of two releases, with zero extension.
fn release_compare_upto(a: &Vec<u64>, b: &Vec<u64>, m: usize) -> (r: i32)
    ensures
        r as int == release_cmp_upto(
            a@.map_values(|x: u64| x as int),
            b@.map_values(|x: u64| x as int),
            0,
            m as int,
        ),
{
    let ghost av = a@.map_values(|x: u64| x as int);
    let ghost bv = b@.map_values(|x: u64| x as int);
    let alen = a.len();
    let blen = b.len();
    let mut i: usize = 0;
    while i < m
        invariant
            0 <= i <= m,
            alen == a@.len() && blen == b@.len(),
            av == a@.map_values(|x: u64| x as int),
            bv == b@.map_values(|x: u64| x as int),
            release_cmp_upto(av, bv, 0, m as int) == release_cmp_upto(av, bv, i as int, m as int),
        decreases m - i,
    {
        let ha: u64 = if i < alen { a[i] } else { 0 };
        let hb: u64 = if i < blen { b[i] } else { 0 };
        if ha < hb {
            return -1;
        }
        if ha > hb {
            return 1;
        }
        i = i + 1;
    }
    0
}

/// Compares two texts lexicographically.
fn lex_compare(a: &str, b: &str) -> (r: i32)
    ensures
        r as int == lex_cmp(a@, b@),
{
    let alen = a.unicode_len();
    let blen = b.unicode_len();
    let top = if alen > blen { alen } else { blen };
    let mut i: usize = 0;
    while i < top
        invariant
            0 <= i <= top,
            alen == a@.len() && blen == b@.len(),
            top == (if alen > blen { alen } else { blen }),
            lex_cmp(a@, b@) == lex_cmp_from(a@, b@, i as int),
        decreases top - i,
    {
        if i >= alen {
            return -1;
        }
        if i >= blen {
            return 1;
        }
        let ca = a.get_char(i);
        let cb = b.get_char(i);
        if ca < cb {
            return -1;
        }
        if ca > cb {
            return 1;
        }
        i = i + 1;
    }
    0
}

/// Whether `needle` occurs in `hay` as a contiguous run.
pub(crate) fn str_contains_seq(hay: &str, needle: &str) -> (r: bool)
    ensures
        r == seq_has(hay@, needle@),
{
    let hn = hay.unicode_len();
    let nn = needle.unicode_len();
    if nn > hn {
        assert(!seq_has(hay@, needle@));
        return false;
    }
    if nn == 0 {
        assert(occurs_at(hay@, needle@, 0)) by {
            assert(hay@.subrange(0, 0) =~= needle@);
        }
        return true;
    }
    let mut k: usize = 0;
    while k <= hn - nn
        invariant
            0 <= k <= hn - nn + 1,
            0 < nn <= hn,
            hn == hay@.len() && nn == needle@.len(),
            forall|k2: int| 0 <= k2 < k ==> !occurs_at(hay@, needle@, k2),
        decreases hn - nn + 1 - k,
    {
        let mut m: usize = 0;
        let mut matched = true;
        while m < nn
            invariant_except_break
                0 <= m <= nn,
                matched,
                forall|m2: int| 0 <= m2 < m ==> hay@[k + m2] == needle@[m2],
            invariant
                k + nn <= hn,
                hn == hay@.len() && nn == needle@.len(),
            ensures
                matched ==> forall|m2: int| 0 <= m2 < nn ==> hay@[k + m2] == needle@[m2],
                !matched ==> !occurs_at(hay@, needle@, k as int),
            decreases nn - m,
        {
            if hay.get_char(k + m) != needle.get_char(m) {
                matched = false;
                proof {
                    if occurs_at(hay@, needle@, k as int) {
                        assert(hay@.subrange(k as int, k + nn)[m as int] == needle@[m as int]);
                    }
                }
                break;
            }
            m = m + 1;
        }
        if matched {
            assert(hay@.subrange(k as int, k + nn) =~= needle@);
            assert(occurs_at(hay@, needle@, k as int));
            return true;
        }
        k = k + 1;
    }
    assert forall|k2: int| !occurs_at(hay@, needle@, k2) by {
        if occurs_at(hay@, needle@, k2) {
            assert(0 <= k2 <= hn - nn);
        }
    }
    false
}

/// Decides one marker comparison on two values.
fn compare_values(op: MarkerOperator, l: &str, r: &str) -> (res: bool)
    ensures
        res == marker_compare(op, l@, r@),
{
    match op {
        MarkerOperator::ExactEqual => crate::text::str_eq(l, r),
        MarkerOperator::In => str_contains_seq(r, l),
        MarkerOperator::NotIn => !str_contains_seq(r, l),
        _ => {
            let ln = parse_release(l);
            let rn = parse_release(r);
            match (ln, rn) {
                (Some(a), Some(b)) => {
                    let c = release_compare(&a, &b);
                    match op {
                        MarkerOperator::Equal => c == 0,
                        MarkerOperator::NotEqual => c != 0,
                        MarkerOperator::LessEqual => c <= 0,
                        MarkerOperator::Less => c < 0,
                        MarkerOperator::GreaterEqual => c >= 0,
                        MarkerOperator::Greater => c > 0,
                        MarkerOperator::TildeEqual => {
                            if b.len() < 2 {
                                false
                            } else {
                                let p = release_compare_upto(&a, &b, b.len() - 1);
                                c >= 0 && p == 0
                            }
                        },
                        _ => false,
                    }
                },
                _ => {
                    match op {
                        MarkerOperator::Equal => crate::text::str_eq(l, r),
                        MarkerOperator::NotEqual => !crate::text::str_eq(l, r),
                        MarkerOperator::LessEqual => lex_compare(l, r) <= 0,
                        MarkerOperator::Less => lex_compare(l, r) < 0,
                        MarkerOperator::GreaterEqual => lex_compare(l, r) >= 0,
                        MarkerOperator::Greater => lex_compare(l, r) > 0,
                        MarkerOperator::TildeEqual => false,
                        _ => false,
                    }
                },
            }
        },
    }
}

/// Reads the value an environment gives to a variable; the extras
/// pseudo-variable reads as empty text.
fn env_get<'a>(env: &'a MarkerEnvironment, v: MarkerVariable) -> (r: &'a str)
    ensures
        r@ == env_value(env@, v),
{
    match v {
        MarkerVariable::ImplementationName => env.implementation_name.as_str(),
        MarkerVariable::ImplementationVersion => env.implementation_version.as_str(),
        MarkerVariable::OsName => env.os_name.as_str(),
        MarkerVariable::PlatformMachine => env.platform_machine.as_str(),
        MarkerVariable::PlatformPythonImplementation =>
            env.platform_python_implementation.as_str(),
        MarkerVariable::PlatformRelease => env.platform_release.as_str(),
        MarkerVariable::PlatformSystem => env.platform_system.as_str(),
        MarkerVariable::PlatformVersion => env.platform_version.as_str(),
        MarkerVariable::PythonFullVersion => env.python_full_version.as_str(),
        MarkerVariable::PythonVersion => env.python_version.as_str(),
        MarkerVariable::SysPlatform => env.sys_platform.as_str(),
        MarkerVariable::Extra => {
            let r = "";
            proof {
                reveal_strlit("");
                assert(r@ =~= Seq::<char>::empty());
            }
            r
        },
    }
}

/// Whether the normalized form of `lit` is one of the requested extras.
fn extras_contain(extras: &[ExtraName], lit: &str) -> (r: bool)
    ensures
        r == extras_have(extras_view(extras@), normal_form(lit@)),
{
    let wanted = crate::name::normalize_text(lit);
    let n = extras.len();
    let mut i: usize = 0;
    while i < n
        invariant
            0 <= i <= n,
            n == extras@.len(),
            wanted@ == normal_form(lit@),
            forall|j: int| 0 <= j < i ==> extras_view(extras@)[j] != normal_form(lit@),
        decreases n - i,
    {
        if crate::text::str_eq(extras[i].as_str(), wanted.as_str()) {
            assert(extras_view(extras@)[i as int] == normal_form(lit@));
            return true;
        }
        i = i + 1;
    }
    false
}

impl MarkerExpression {
    /// Decides this comparison against an environment and requested extras.
    pub fn evaluate(&self, env: &MarkerEnvironment, extras: &[ExtraName]) -> (r: bool)
        ensures
            r == eval_expression(self@, env@, extras_view(extras@)),
    {
        match (&self.left, &self.right) {
            (MarkerValue::Variable(MarkerVariable::Extra), MarkerValue::Literal(t)) => {
                match self.op {
                    MarkerOperator::Equal => extras_contain(extras, t.as_str()),
                    MarkerOperator::NotEqual => !extras_contain(extras, t.as_str()),
                    _ => false,
                }
            },
            (MarkerValue::Literal(t), MarkerValue::Variable(MarkerVariable::Extra)) => {
                match self.op {
                    MarkerOperator::Equal => extras_contain(extras, t.as_str()),
                    MarkerOperator::NotEqual => !extras_contain(extras, t.as_str()),
                    _ => false,
                }
            },
            (MarkerValue::Variable(v), MarkerValue::Literal(t)) => {
                compare_values(self.op, env_get(env, *v), t.as_str())
            },
            (MarkerValue::Literal(t), MarkerValue::Variable(v)) => {
                compare_values(self.op, t.as_str(), env_get(env, *v))
            },
            (MarkerValue::Literal(a), MarkerValue::Literal(b)) => {
                compare_values(self.op, a.as_str(), b.as_str())
            },
            (MarkerValue::Variable(v1), MarkerValue::Variable(v2)) => {
                if *v1 == MarkerVariable::Extra || *v2 == MarkerVariable::Extra {
                    false
                } else {
                    compare_values(self.op, env_get(env, *v1), env_get(env, *v2))
                }
            },
        }
    }
}

// ---------------------------------------------------------------------------
// Tokens.
// ---------------------------------------------------------------------------

/// The mathematical content of one marker token.
pub ghost enum TokenView {
    LParen,
    RParen,
    KwAnd,
    KwOr,
    KwIn,
    KwNot,
    Oper(MarkerOperator),
    Str(Seq<char>),
    Var(MarkerVariable),
}

/// One token of the marker language.
#[derive(Debug)]
pub enum Token {
    LParen,
    RParen,
    KwAnd,
    KwOr,
    KwIn,
    KwNot,
    Oper(MarkerOperator),
    Str(String),
    Var(MarkerVariable),
}

impl View for Token {
    type V = TokenView;

    open spec fn view(&self) -> TokenView {
        match self {
            Token::LParen => TokenView::LParen,
            Token::RParen => TokenView::RParen,
            Token::KwAnd => TokenView::KwAnd,
            Token::KwOr => TokenView::KwOr,
            Token::KwIn => TokenView::KwIn,
            Token::KwNot => TokenView::KwNot,
            Token::Oper(o) => TokenView::Oper(*o),
            Token::Str(t) => TokenView::Str(t@),
            Token::Var(v) => TokenView::Var(*v),
        }
    }
}

/// The views of a token list.
pub open spec fn tokens_view(ts: Seq<Token>) -> Seq<TokenView> {
    ts.map_values(|t: Token| t@)
}

/// A character of a word: a keyword or a variable name.
pub open spec fn is_word_char(c: char) -> bool {
    ('a' <= c && c <= 'z') || ('0' <= c && c <= '9') || c == '_'
}

/// The end of the word starting at `i`.
pub open spec fn word_end(s: Seq<char>, i: int) -> int
    decreases s.len() - i,
{
    if 0 <= i < s.len() && is_word_char(s[i]) {
        word_end(s, i + 1)
    } else {
        i
    }
}

pub proof fn lemma_word_end_bounds(s: Seq<char>, i: int)
    requires
        0 <= i <= s.len(),
    ensures
        i <= word_end(s, i) <= s.len(),
        forall|k: int| i <= k < word_end(s, i) ==> is_word_char(#[trigger] s[k]),
        word_end(s, i) < s.len() ==> !is_word_char(s[word_end(s, i)]),
    decreases s.len() - i,
{
    if i < s.len() && is_word_char(s[i]) {
        lemma_word_end_bounds(s, i + 1);
    }
}

/// The position of the first occurrence of `q` at or after `i`, or the end.
pub open spec fn find_char(s: Seq<char>, i: int, q: char) -> int
    decreases s.len() - i,
{
    if 0 <= i < s.len() && s[i] != q {
        find_char(s, i + 1, q)
    } else {
        i
    }
}

pub proof fn lemma_find_char_bounds(s: Seq<char>, i: int, q: char)
    requires
        0 <= i <= s.len(),
    ensures
        i <= find_char(s, i, q) <= s.len(),
        find_char(s, i, q) < s.len() ==> s[find_char(s, i, q)] == q,
        forall|k: int| i <= k < find_char(s, i, q) ==> #[trigger] s[k] != q,
    decreases s.len() - i,
{
    if i < s.len() && s[i] != q {
        lemma_find_char_bounds(s, i + 1, q);
    }
}

/// The token a word stands for: a keyword, a variable, or nothing.
pub open spec fn word_token(w: Seq<char>) -> Option<TokenView> {
    if w == "and"@ {
        Some(TokenView::KwAnd)
    } else if w == "or"@ {
        Some(TokenView::KwOr)
    } else if w == "in"@ {
        Some(TokenView::KwIn)
    } else if w == "not"@ {
        Some(TokenView::KwNot)
    } else if w == "implementation_name"@ {
        Some(TokenView::Var(MarkerVariable::ImplementationName))
    } else if w == "implementation_version"@ {
        Some(TokenView::Var(MarkerVariable::ImplementationVersion))
    } else if w == "os_name"@ {
        Some(TokenView::Var(MarkerVariable::OsName))
    } else if w == "platform_machine"@ {
        Some(TokenView::Var(MarkerVariable::PlatformMachine))
    } else if w == "platform_python_implementation"@ {
        Some(TokenView::Var(MarkerVariable::PlatformPythonImplementation))
    } else if w == "platform_release"@ {
        Some(TokenView::Var(MarkerVariable::PlatformRelease))
    } else if w == "platform_system"@ {
        Some(TokenView::Var(MarkerVariable::PlatformSystem))
    } else if w == "platform_version"@ {
        Some(TokenView::Var(MarkerVariable::PlatformVersion))
    } else if w == "python_full_version"@ {
        Some(TokenView::Var(MarkerVariable::PythonFullVersion))
    } else if w == "python_version"@ {
        Some(TokenView::Var(MarkerVariable::PythonVersion))
    } else if w == "sys_platform"@ {
        Some(TokenView::Var(MarkerVariable::SysPlatform))
    } else if w == "extra"@ {
        Some(TokenView::Var(MarkerVariable::Extra))
    } else {
        None
    }
}

/// The comparison operator written in symbols at position `i`, with the
/// position just after it. Longest match first.
pub open spec fn spec_marker_op(s: Seq<char>, i: int) -> Option<(MarkerOperator, int)> {
    if i + 3 <= s.len() && s[i] == '=' && s[i + 1] == '=' && s[i + 2] == '=' {
        Some((MarkerOperator::ExactEqual, i + 3))
    } else if i + 2 <= s.len() && s[i] == '=' && s[i + 1] == '=' {
        Some((MarkerOperator::Equal, i + 2))
    } else if i + 2 <= s.len() && s[i] == '!' && s[i + 1] == '=' {
        Some((MarkerOperator::NotEqual, i + 2))
    } else if i + 2 <= s.len() && s[i] == '<' && s[i + 1] == '=' {
        Some((MarkerOperator::LessEqual, i + 2))
    } else if i + 2 <= s.len() && s[i] == '>' && s[i + 1] == '=' {
        Some((MarkerOperator::GreaterEqual, i + 2))
    } else if i + 2 <= s.len() && s[i] == '~' && s[i + 1] == '=' {
        Some((MarkerOperator::TildeEqual, i + 2))
    } else if i + 1 <= s.len() && s[i] == '<' {
        Some((MarkerOperator::Less, i + 1))
    } else if i + 1 <= s.len() && s[i] == '>' {
        Some((MarkerOperator::Greater, i + 1))
    } else {
        None
    }
}

/// The tokens of the marker text from position `i` on.
pub open spec fn tokenize_from(s: Seq<char>, i: int) -> Option<Seq<TokenView>>
    decreases s.len() - i,
    via tokenize_from_decreases
{
    if !(0 <= i <= s.len()) {
        None
    } else {
        let a = crate::text::skip_ws_from(s, i);
        if a >= s.len() {
            Some(Seq::empty())
        } else {
            let c = s[a];
            if c == '(' {
                tokenize_cons(TokenView::LParen, tokenize_from(s, a + 1))
            } else if c == ')' {
                tokenize_cons(TokenView::RParen, tokenize_from(s, a + 1))
            } else if c == '\'' || c == '"' {
                let j = find_char(s, a + 1, c);
                if j >= s.len() {
                    None
                } else {
                    tokenize_cons(TokenView::Str(s.subrange(a + 1, j)), tokenize_from(s, j + 1))
                }
            } else if c == '=' || c == '!' || c == '<' || c == '>' || c == '~' {
                match spec_marker_op(s, a) {
                    None => None,
                    Some((o, nx)) => tokenize_cons(TokenView::Oper(o), tokenize_from(s, nx)),
                }
            } else if is_word_char(c) {
                let j = word_end(s, a);
                match word_token(s.subrange(a, j)) {
                    None => None,
                    Some(t) => tokenize_cons(t, tokenize_from(s, j)),
                }
            } else {
                None
            }
        }
    }
}

/// Prepends a token to an optional token list.
pub open spec fn tokenize_cons(t: TokenView, rest: Option<Seq<TokenView>>) -> Option<
    Seq<TokenView>,
> {
    match rest {
        None => None,
        Some(r) => Some(seq![t] + r),
    }
}

#[via_fn]
proof fn tokenize_from_decreases(s: Seq<char>, i: int) {
    if 0 <= i <= s.len() {
        crate::text::lemma_skip_ws_bounds(s, i);
        let a = crate::text::skip_ws_from(s, i);
        if a < s.len() {
            lemma_find_char_bounds(s, a + 1, s[a]);
            lemma_word_end_bounds(s, a);
            if is_word_char(s[a]) {
                assert(word_end(s, a) > a);
            }
        }
    }
}

/// The tokens of a whole marker text.
pub open spec fn spec_tokenize(s: Seq<char>) -> Option<Seq<TokenView>> {
    tokenize_from(s, 0)
}

// ---------------------------------------------------------------------------
// The grammar over tokens: value, comparison, `and`, `or`, parentheses.
// ---------------------------------------------------------------------------

/// One operand at token `k`.
pub open spec fn sp_value(toks: Seq<TokenView>, k: int) -> Option<(MarkerValueView, int)> {
    if 0 <= k < toks.len() {
        match toks[k] {
            TokenView::Str(t) => Some((MarkerValueView::Literal(t), k + 1)),
            TokenView::Var(v) => Some((MarkerValueView::Variable(v), k + 1)),
            _ => None,
        }
    } else {
        None
    }
}

/// One comparison operator at token `k`; `not` must be followed by `in`.
pub open spec fn sp_op(toks: Seq<TokenView>, k: int) -> Option<(MarkerOperator, int)> {
    if 0 <= k < toks.len() {
        match toks[k] {
            TokenView::Oper(o) => Some((o, k + 1)),
            TokenView::KwIn => Some((MarkerOperator::In, k + 1)),
            TokenView::KwNot => if k + 1 < toks.len() && toks[k + 1] == TokenView::KwIn {
                Some((MarkerOperator::NotIn, k + 2))
            } else {
                None
            },
            _ => None,
        }
    } else {
        None
    }
}

/// One comparison: operand, operator, operand.
pub open spec fn sp_expr(toks: Seq<TokenView>, k: int) -> Option<(MarkerTreeView, int)> {
    match sp_value(toks, k) {
        None => None,
        Some((l, k1)) => match sp_op(toks, k1) {
            None => None,
            Some((o, k2)) => match sp_value(toks, k2) {
                None => None,
                Some((r, k3)) => Some(
                    (
                        MarkerTreeView::Expression(
                            MarkerExpressionView { left: l, op: o, right: r },
                        ),
                        k3,
                    ),
                ),
            },
        },
    }
}

/// An atom: a parenthesized expression or one comparison. The guards on
/// returned positions only justify termination; a parse never violates them.
pub open spec fn sp_atom(toks: Seq<TokenView>, k: int) -> Option<(MarkerTreeView, int)>
    decreases toks.len() - k, 0int,
{
    if 0 <= k < toks.len() && toks[k] == TokenView::LParen {
        match sp_or(toks, k + 1) {
            None => None,
            Some((t, k2)) => if k2 < toks.len() && toks[k2] == TokenView::RParen {
                Some((t, k2 + 1))
            } else {
                None
            },
        }
    } else {
        sp_expr(toks, k)
    }
}

/// A conjunction: atoms joined by `and`, grouped to the right.
pub open spec fn sp_and(toks: Seq<TokenView>, k: int) -> Option<(MarkerTreeView, int)>
    decreases toks.len() - k, 1int,
{
    if !(0 <= k <= toks.len()) {
        None
    } else {
        match sp_atom(toks, k) {
            None => None,
            Some((t, k1)) => if k <= k1 && k1 < toks.len() && toks[k1] == TokenView::KwAnd {
                match sp_and(toks, k1 + 1) {
                    None => None,
                    Some((t2, k2)) => Some(
                        (MarkerTreeView::And(Box::new(t), Box::new(t2)), k2),
                    ),
                }
            } else {
                Some((t, k1))
            },
        }
    }
}

/// A disjunction: conjunctions joined by `or`, grouped to the right.
pub open spec fn sp_or(toks: Seq<TokenView>, k: int) -> Option<(MarkerTreeView, int)>
    decreases toks.len() - k, 2int,
{
    if !(0 <= k <= toks.len()) {
        None
    } else {
        match sp_and(toks, k) {
            None => None,
            Some((t, k1)) => if k <= k1 && k1 < toks.len() && toks[k1] == TokenView::KwOr {
                match sp_or(toks, k1 + 1) {
                    None => None,
                    Some((t2, k2)) => Some((MarkerTreeView::Or(Box::new(t), Box::new(t2)), k2)),
                }
            } else {
                Some((t, k1))
            },
        }
    }
}

/// The tree of a whole token list: one disjunction consuming every token.
pub open spec fn sp_marker(toks: Seq<TokenView>) -> Option<MarkerTreeView> {
    match sp_or(toks, 0) {
        None => None,
        Some((t, k)) => if k == toks.len() {
            Some(t)
        } else {
            None
        },
    }
}

/// The marker tree written in `s`, when `s` is a well-formed marker.
pub open spec fn spec_parse_marker(s: Seq<char>) -> Option<MarkerTreeView> {
    match spec_tokenize(s) {
        None => None,
        Some(toks) => sp_marker(toks),
    }
}

// ---------------------------------------------------------------------------
// The executable tokenizer.
// ---------------------------------------------------------------------------

/// The marker text was not a well-formed marker expression.
#[derive(Debug)]
pub struct MarkerParseError {
    /// The rejected text.
    pub input: String,
}

/// Whether the character at `j` is a word character.
fn word_char_at(s: &str, j: usize) -> (r: bool)
    requires
        j < s@.len(),
    ensures
        r == is_word_char(s@[j as int]),
{
    let c = s.get_char(j);
    let u = c as u32;
    (97 <= u && u <= 122) || (48 <= u && u <= 57) || c == '_'
}

/// Finds the end of the word starting at `i`.
fn scan_word(s: &str, i: usize) -> (j: usize)
    requires
        i <= s@.len(),
    ensures
        j as int == word_end(s@, i as int),
        i <= j <= s@.len(),
    decreases s@.len() - i,
{
    proof {
        lemma_word_end_bounds(s@, i as int);
    }
    let n = s.unicode_len();
    let mut j = i;
    while j < n && word_char_at(s, j)
        invariant
            i <= j <= n,
            n == s@.len(),
            word_end(s@, i as int) == word_end(s@, j as int),
        decreases n - j,
    {
        j = j + 1;
    }
    j
}

/// Whether the character at `j` differs from `q`.
fn not_char_at(s: &str, j: usize, q: char) -> (r: bool)
    requires
        j < s@.len(),
    ensures
        r == (s@[j as int] != q),
{
    s.get_char(j) != q
}

/// Finds the first occurrence of `q` at or after `i`.
pub(crate) fn scan_char(s: &str, i: usize, q: char) -> (j: usize)
    requires
        i <= s@.len(),
    ensures
        j as int == find_char(s@, i as int, q),
        i <= j <= s@.len(),
    decreases s@.len() - i,
{
    proof {
        lemma_find_char_bounds(s@, i as int, q);
    }
    let n = s.unicode_len();
    let mut j = i;
    while j < n && not_char_at(s, j, q)
        invariant
            i <= j <= n,
            n == s@.len(),
            find_char(s@, i as int, q) == find_char(s@, j as int, q),
        decreases n - j,
    {
        j = j + 1;
    }
    j
}

/// Maps a word to its token.
fn word_to_token(w: &str) -> (r: Option<Token>)
    ensures
        match r {
            Some(t) => word_token(w@) == Some(t@),
            None => word_token(w@) is None,
        },
{
    if crate::text::str_eq(w, "and") {
        Some(Token::KwAnd)
    } else if crate::text::str_eq(w, "or") {
        Some(Token::KwOr)
    } else if crate::text::str_eq(w, "in") {
        Some(Token::KwIn)
    } else if crate::text::str_eq(w, "not") {
        Some(Token::KwNot)
    } else if crate::text::str_eq(w, "implementation_name") {
        Some(Token::Var(MarkerVariable::ImplementationName))
    } else if crate::text::str_eq(w, "implementation_version") {
        Some(Token::Var(MarkerVariable::ImplementationVersion))
    } else if crate::text::str_eq(w, "os_name") {
        Some(Token::Var(MarkerVariable::OsName))
    } else if crate::text::str_eq(w, "platform_machine") {
        Some(Token::Var(MarkerVariable::PlatformMachine))
    } else if crate::text::str_eq(w, "platform_python_implementation") {
        Some(Token::Var(MarkerVariable::PlatformPythonImplementation))
    } else if crate::text::str_eq(w, "platform_release") {
        Some(Token::Var(MarkerVariable::PlatformRelease))
    } else if crate::text::str_eq(w, "platform_system") {
        Some(Token::Var(MarkerVariable::PlatformSystem))
    } else if crate::text::str_eq(w, "platform_version") {
        Some(Token::Var(MarkerVariable::PlatformVersion))
    } else if crate::text::str_eq(w, "python_full_version") {
        Some(Token::Var(MarkerVariable::PythonFullVersion))
    } else if crate::text::str_eq(w, "python_version") {
        Some(Token::Var(MarkerVariable::PythonVersion))
    } else if crate::text::str_eq(w, "sys_platform") {
        Some(Token::Var(MarkerVariable::SysPlatform))
    } else if crate::text::str_eq(w, "extra") {
        Some(Token::Var(MarkerVariable::Extra))
    } else {
        None
    }
}

/// Parses the comparison operator written in symbols at position `i`.
fn marker_op_at(s: &str, i: usize) -> (r: Option<(MarkerOperator, usize)>)
    requires
        i <= s@.len(),
    ensures
        match r {
            Some((o, after)) => spec_marker_op(s@, i as int) == Some((o, after as int)),
            None => spec_marker_op(s@, i as int) is None,
        },
{
    let n = s.unicode_len();
    if n - i >= 3 && s.get_char(i) == '=' && s.get_char(i + 1) == '=' && s.get_char(i + 2) == '=' {
        Some((MarkerOperator::ExactEqual, i + 3))
    } else if n - i >= 2 && s.get_char(i) == '=' && s.get_char(i + 1) == '=' {
        Some((MarkerOperator::Equal, i + 2))
    } else if n - i >= 2 && s.get_char(i) == '!' && s.get_char(i + 1) == '=' {
        Some((MarkerOperator::NotEqual, i + 2))
    } else if n - i >= 2 && s.get_char(i) == '<' && s.get_char(i + 1) == '=' {
        Some((MarkerOperator::LessEqual, i + 2))
    } else if n - i >= 2 && s.get_char(i) == '>' && s.get_char(i + 1) == '=' {
        Some((MarkerOperator::GreaterEqual, i + 2))
    } else if n - i >= 2 && s.get_char(i) == '~' && s.get_char(i + 1) == '=' {
        Some((MarkerOperator::TildeEqual, i + 2))
    } else if n - i >= 1 && s.get_char(i) == '<' {
        Some((MarkerOperator::Less, i + 1))
    } else if n - i >= 1 && s.get_char(i) == '>' {
        Some((MarkerOperator::Greater, i + 1))
    } else {
        None
    }
}

/// Tokenizes marker text.
fn tokenize(s: &str) -> (r: Option<Vec<Token>>)
    ensures
        match r {
            Some(ts) => spec_tokenize(s@) == Some(tokens_view(ts@)),
            None => spec_tokenize(s@) is None,
        },
{
    let n = s.unicode_len();
    let mut out: Vec<Token> = Vec::new();
    let mut i: usize = 0;
    loop
        invariant_except_break
            match tokenize_from(s@, i as int) {
                Some(rest) => spec_tokenize(s@) == Some(tokens_view(out@) + rest),
                None => spec_tokenize(s@) is None,
            },
        invariant
            i <= n,
            n == s@.len(),
        ensures
            match spec_tokenize(s@) {
                Some(all) => tokens_view(out@) == all,
                None => false,
            },
        decreases n - i,
    {
        proof {
            crate::text::lemma_skip_ws_bounds(s@, i as int);
        }
        let a = skip_ws_exec(s, i);
        if a == n {
            assert(tokens_view(out@) + Seq::<TokenView>::empty() =~= tokens_view(out@));
            break;
        }
        let c = s.get_char(a);
        let ghost oldts = out@;
        if c == '(' {
            let tok = Token::LParen;
            let ghost tsnap = tok;
            out.push(tok);
            proof {
                lemma_token_step(oldts, out@, tsnap, tokenize_from(s@, a + 1));
            }
            i = a + 1;
        } else if c == ')' {
            let tok = Token::RParen;
            let ghost tsnap = tok;
            out.push(tok);
            proof {
                lemma_token_step(oldts, out@, tsnap, tokenize_from(s@, a + 1));
            }
            i = a + 1;
        } else if c == '\'' || c == '"' {
            proof {
                lemma_find_char_bounds(s@, a + 1, c);
            }
            let j = scan_char(s, a + 1, c);
            if j == n {
                return None;
            }
            let lit = s.substring_char(a + 1, j).to_owned();
            let tok = Token::Str(lit);
            let ghost tsnap = tok;
            assert(tok@ == TokenView::Str(s@.subrange(a + 1, j as int)));
            out.push(tok);
            proof {
                lemma_token_step(oldts, out@, tsnap, tokenize_from(s@, j + 1));
            }
            i = j + 1;
        } else if c == '=' || c == '!' || c == '<' || c == '>' || c == '~' {
            match marker_op_at(s, a) {
                None => {
                    return None;
                },
                Some((o, nx)) => {
                    let tok = Token::Oper(o);
                    let ghost tsnap = tok;
                    out.push(tok);
                    proof {
                        lemma_token_step(oldts, out@, tsnap, tokenize_from(s@, nx as int));
                    }
                    i = nx;
                },
            }
        } else if word_char_at(s, a) {
            proof {
                lemma_word_end_bounds(s@, a as int);
            }
            let j = scan_word(s, a);
            let w = s.substring_char(a, j).to_owned();
            match word_to_token(w.as_str()) {
                None => {
                    return None;
                },
                Some(tok) => {
                    let ghost tsnap = tok;
                    out.push(tok);
                    proof {
                        lemma_token_step(oldts, out@, tsnap, tokenize_from(s@, j as int));
                    }
                    i = j;
                },
            }
        } else {
            return None;
        }
    }
    Some(out)
}

/// One tokenizer step keeps the running list aligned with the tokens that
/// remain.
proof fn lemma_token_step(
    oldts: Seq<Token>,
    newts: Seq<Token>,
    tok: Token,
    restopt: Option<Seq<TokenView>>,
)
    requires
        newts == oldts.push(tok),
    ensures
        tokens_view(newts) == tokens_view(oldts).push(tok@),
        restopt matches Some(rest) ==> tokens_view(oldts) + (seq![tok@] + rest) == tokens_view(
            newts,
        ) + rest,
{
    assert(tokens_view(newts) =~= tokens_view(oldts).push(tok@));
    if restopt is Some {
        let rest = restopt.unwrap();
        assert(tokens_view(oldts) + (seq![tok@] + rest) =~= tokens_view(oldts).push(tok@) + rest);
    }
}

/// Advances past spaces (a thin alias keeping this module readable).
fn skip_ws_exec(s: &str, i: usize) -> (j: usize)
    requires
        i <= s@.len(),
    ensures
        j as int == crate::text::skip_ws_from(s@, i as int),
        i <= j <= s@.len(),
{
    crate::text::skip_ws(s, i)
}

// ---------------------------------------------------------------------------
// The executable parser over tokens.
// ---------------------------------------------------------------------------

/// Parses one operand.
fn p_value(toks: &Vec<Token>, k: usize) -> (r: Option<(MarkerValue, usize)>)
    ensures
        match r {
            Some((v, k2)) => sp_value(tokens_view(toks@), k as int) == Some((v@, k2 as int))
                && k < k2 <= toks@.len(),
            None => sp_value(tokens_view(toks@), k as int) is None,
        },
{
    if k < toks.len() {
        assert(tokens_view(toks@)[k as int] == toks@[k as int]@);
        match &toks[k] {
            Token::Str(t) => Some((MarkerValue::Literal(t.clone()), k + 1)),
            Token::Var(v) => Some((MarkerValue::Variable(*v), k + 1)),
            _ => None,
        }
    } else {
        None
    }
}

/// Parses one comparison operator.
fn p_op(toks: &Vec<Token>, k: usize) -> (r: Option<(MarkerOperator, usize)>)
    ensures
        match r {
            Some((o, k2)) => sp_op(tokens_view(toks@), k as int) == Some((o, k2 as int)) && k < k2
                <= toks@.len(),
            None => sp_op(tokens_view(toks@), k as int) is None,
        },
{
    if k < toks.len() {
        assert(tokens_view(toks@)[k as int] == toks@[k as int]@);
        match &toks[k] {
            Token::Oper(o) => Some((*o, k + 1)),
            Token::KwIn => Some((MarkerOperator::In, k + 1)),
            Token::KwNot => {
                if k + 1 < toks.len() {
                    assert(tokens_view(toks@)[k + 1] == toks@[k + 1]@);
                    match &toks[k + 1] {
                        Token::KwIn => Some((MarkerOperator::NotIn, k + 2)),
                        _ => None,
                    }
                } else {
                    None
                }
            },
            _ => None,
        }
    } else {
        None
    }
}

/// Parses one comparison.
fn p_expr(toks: &Vec<Token>, k: usize) -> (r: Option<(MarkerTree, usize)>)
    ensures
        match r {
            Some((t, k2)) => sp_expr(tokens_view(toks@), k as int) == Some((t@, k2 as int)) && k
                < k2 <= toks@.len(),
            None => sp_expr(tokens_view(toks@), k as int) is None,
        },
{
    match p_value(toks, k) {
        None => None,
        Some((l, k1)) => match p_op(toks, k1) {
            None => None,
            Some((o, k2)) => match p_value(toks, k2) {
                None => None,
                Some((rv, k3)) => Some(
                    (MarkerTree::Expression(MarkerExpression { left: l, op: o, right: rv }), k3),
                ),
            },
        },
    }
}

/// Parses one atom.
fn p_atom(toks: &Vec<Token>, k: usize) -> (r: Option<(MarkerTree, usize)>)
    ensures
        match r {
            Some((t, k2)) => sp_atom(tokens_view(toks@), k as int) == Some((t@, k2 as int)) && k
                < k2 <= toks@.len(),
            None => sp_atom(tokens_view(toks@), k as int) is None,
        },
    decreases toks@.len() - k, 0int,
{
    if k < toks.len() {
        assert(tokens_view(toks@)[k as int] == toks@[k as int]@);
        let open_paren = match &toks[k] {
            Token::LParen => true,
            _ => false,
        };
        if open_paren {
            match p_or(toks, k + 1) {
                None => None,
                Some((t, k2)) => {
                    if k2 < toks.len() {
                        assert(tokens_view(toks@)[k2 as int] == toks@[k2 as int]@);
                        match &toks[k2] {
                            Token::RParen => Some((t, k2 + 1)),
                            _ => None,
                        }
                    } else {
                        None
                    }
                },
            }
        } else {
            p_expr(toks, k)
        }
    } else {
        p_expr(toks, k)
    }
}

/// Parses one conjunction.
fn p_and(toks: &Vec<Token>, k: usize) -> (r: Option<(MarkerTree, usize)>)
    ensures
        match r {
            Some((t, k2)) => sp_and(tokens_view(toks@), k as int) == Some((t@, k2 as int)) && k
                < k2 <= toks@.len(),
            None => sp_and(tokens_view(toks@), k as int) is None,
        },
    decreases toks@.len() - k, 1int,
{
    match p_atom(toks, k) {
        None => None,
        Some((t, k1)) => {
            if k1 < toks.len() {
                assert(tokens_view(toks@)[k1 as int] == toks@[k1 as int]@);
                let is_and = match &toks[k1] {
                    Token::KwAnd => true,
                    _ => false,
                };
                if is_and {
                    match p_and(toks, k1 + 1) {
                        None => None,
                        Some((t2, k2)) => Some(
                            (MarkerTree::And(Box::new(t), Box::new(t2)), k2),
                        ),
                    }
                } else {
                    Some((t, k1))
                }
            } else {
                Some((t, k1))
            }
        },
    }
}

/// Parses one disjunction.
fn p_or(toks: &Vec<Token>, k: usize) -> (r: Option<(MarkerTree, usize)>)
    ensures
        match r {
            Some((t, k2)) => sp_or(tokens_view(toks@), k as int) == Some((t@, k2 as int)) && k < k2
                <= toks@.len(),
            None => sp_or(tokens_view(toks@), k as int) is None,
        },
    decreases toks@.len() - k, 2int,
{
    match p_and(toks, k) {
        None => None,
        Some((t, k1)) => {
            if k1 < toks.len() {
                assert(tokens_view(toks@)[k1 as int] == toks@[k1 as int]@);
                let is_or = match &toks[k1] {
                    Token::KwOr => true,
                    _ => false,
                };
                if is_or {
                    match p_or(toks, k1 + 1) {
                        None => None,
                        Some((t2, k2)) => Some((MarkerTree::Or(Box::new(t), Box::new(t2)), k2)),
                    }
                } else {
                    Some((t, k1))
                }
            } else {
                Some((t, k1))
            }
        },
    }
}

impl MarkerTree {
    /// Parses marker text into its expression tree.
    pub fn parse(s: &str) -> (r: Result<MarkerTree, MarkerParseError>)
        ensures
            match r {
                Ok(t) => spec_parse_marker(s@) == Some(t@),
                Err(_) => spec_parse_marker(s@) is None,
            },
    {
        match tokenize(s) {
            None => Err(MarkerParseError { input: s.to_owned() }),
            Some(toks) => match p_or(&toks, 0) {
                None => Err(MarkerParseError { input: s.to_owned() }),
                Some((t, k)) => {
                    if k == toks.len() {
                        Ok(t)
                    } else {
                        Err(MarkerParseError { input: s.to_owned() })
                    }
                },
            },
        }
    }
}

impl MarkerTree {
    /// Decides this marker against an environment and requested extras.
    pub fn evaluate(&self, env: &MarkerEnvironment, extras: &[ExtraName]) -> (r: bool)
        ensures
            r == eval_marker(self@, env@, extras_view(extras@)),
        decreases self,
    {
        match self {
            MarkerTree::Expression(e) => e.evaluate(env, extras),
            MarkerTree::And(a, b) => a.evaluate(env, extras) && b.evaluate(env, extras),
            MarkerTree::Or(a, b) => a.evaluate(env, extras) || b.evaluate(env, extras),
        }
    }
}

} // verus!
