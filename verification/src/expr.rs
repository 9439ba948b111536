//! The embedded expression language: a restricted operator set (arithmetic,
//! comparison, boolean, function call, tuple, assignment, statement chain), a
//! parser from text to operator trees, and an evaluator over a mutable
//! variable context. Every unhandled construct is a reported error.
use vstd::prelude::*;

verus! {

broadcast use vstd::std_specs::vec::axiom_vec_index_decreases;

/// A value of the expression language.
#[derive(Debug, PartialEq)]
pub enum ExprValue {
    Int(i64),
    Boolean(bool),
    Text(String),
    Unit,
}

#[verifier::ext_equal]
pub enum SpecExprValue {
    Int(int),
    Boolean(bool),
    Text(Seq<char>),
    Unit,
}

impl View for ExprValue {
    type V = SpecExprValue;

    open spec fn view(&self) -> SpecExprValue {
        match self {
            ExprValue::Int(v) => SpecExprValue::Int(*v as int),
            ExprValue::Boolean(b) => SpecExprValue::Boolean(*b),
            ExprValue::Text(s) => SpecExprValue::Text(s@),
            ExprValue::Unit => SpecExprValue::Unit,
        }
    }
}

/// The closed operator set of the expression language.
pub enum Operator {
    RootNode,
    Add,
    Sub,
    Mul,
    Div,
    Mod,
    Eq,
    Neq,
    Gt,
    Lt,
    Geq,
    Leq,
    And,
    Or,
    Not,
    Neg,
    Assign,
    Chain,
    Tuple,
    Const(ExprValue),
    VariableIdentifierRead(String),
    VariableIdentifierWrite(String),
    FunctionIdentifier(String),
}

#[verifier::ext_equal]
pub enum SpecOperator {
    RootNode,
    Add,
    Sub,
    Mul,
    Div,
    Mod,
    Eq,
    Neq,
    Gt,
    Lt,
    Geq,
    Leq,
    And,
    Or,
    Not,
    Neg,
    Assign,
    Chain,
    Tuple,
    Const(SpecExprValue),
    VariableIdentifierRead(Seq<char>),
    VariableIdentifierWrite(Seq<char>),
    FunctionIdentifier(Seq<char>),
}

impl View for Operator {
    type V = SpecOperator;

    open spec fn view(&self) -> SpecOperator {
        match self {
            Operator::RootNode => SpecOperator::RootNode,
            Operator::Add => SpecOperator::Add,
            Operator::Sub => SpecOperator::Sub,
            Operator::Mul => SpecOperator::Mul,
            Operator::Div => SpecOperator::Div,
            Operator::Mod => SpecOperator::Mod,
            Operator::Eq => SpecOperator::Eq,
            Operator::Neq => SpecOperator::Neq,
            Operator::Gt => SpecOperator::Gt,
            Operator::Lt => SpecOperator::Lt,
            Operator::Geq => SpecOperator::Geq,
            Operator::Leq => SpecOperator::Leq,
            Operator::And => SpecOperator::And,
            Operator::Or => SpecOperator::Or,
            Operator::Not => SpecOperator::Not,
            Operator::Neg => SpecOperator::Neg,
            Operator::Assign => SpecOperator::Assign,
            Operator::Chain => SpecOperator::Chain,
            Operator::Tuple => SpecOperator::Tuple,
            Operator::Const(v) => SpecOperator::Const(v@),
            Operator::VariableIdentifierRead(s) => SpecOperator::VariableIdentifierRead(s@),
            Operator::VariableIdentifierWrite(s) => SpecOperator::VariableIdentifierWrite(s@),
            Operator::FunctionIdentifier(s) => SpecOperator::FunctionIdentifier(s@),
        }
    }
}

/// One node of an operator tree.
pub struct ExprNode {
    pub operator: Operator,
    pub children: Vec<ExprNode>,
}

#[verifier::ext_equal]
pub struct SpecExprNode {
    pub operator: SpecOperator,
    pub children: Seq<SpecExprNode>,
}

pub open spec fn expr_nodes_view(v: Vec<ExprNode>, k: int) -> Seq<SpecExprNode>
    decreases v, k,
{
    if k <= 0 || k > v@.len() {
        Seq::empty()
    } else {
        expr_nodes_view(v, k - 1).push(v[k - 1].view())
    }
}

impl View for ExprNode {
    type V = SpecExprNode;

    open spec fn view(&self) -> SpecExprNode
        decreases self,
    {
        SpecExprNode {
            operator: self.operator@,
            children: expr_nodes_view(self.children, self.children@.len() as int),
        }
    }
}

pub proof fn lemma_expr_nodes_view(v: Vec<ExprNode>, k: int)
    requires
        0 <= k <= v@.len(),
    ensures
        expr_nodes_view(v, k).len() == k,
        forall|i: int| 0 <= i < k ==> expr_nodes_view(v, k)[i] == v[i]@,
    decreases k,
{
    if k > 0 {
        lemma_expr_nodes_view(v, k - 1);
        assert(expr_nodes_view(v, k) == expr_nodes_view(v, k - 1).push(v[k - 1].view()));
    } else {
        assert(expr_nodes_view(v, k) == Seq::<SpecExprNode>::empty());
    }
}

/// The view of a vector of nodes.
pub open spec fn all_expr_nodes_view(v: Vec<ExprNode>) -> Seq<SpecExprNode> {
    expr_nodes_view(v, v@.len() as int)
}

impl ExprNode {
    /// Builds a node with no children.
    pub fn leaf(operator: Operator) -> (r: ExprNode)
        ensures
            r@.operator == operator@,
            r@.children == Seq::<SpecExprNode>::empty(),
    {
        let r = ExprNode { operator, children: Vec::new() };
        proof {
            assert(r@.children =~= Seq::<SpecExprNode>::empty());
        }
        r
    }

    /// The node's operator.
    pub fn operator(&self) -> (r: &Operator)
        ensures
            r@ == self@.operator,
    {
        &self.operator
    }

    /// The node's children, in order.
    pub fn children(&self) -> (r: &Vec<ExprNode>)
        ensures
            all_expr_nodes_view(*r) == self@.children,
    {
        &self.children
    }
}

/// One token of the expression language.
pub enum Token {
    Int(i64),
    Text(String),
    Ident(String),
    Plus,
    Minus,
    Star,
    Slash,
    Percent,
    EqEq,
    NotEq,
    GtEq,
    LtEq,
    Gt,
    Lt,
    AndAnd,
    OrOr,
    Bang,
    Assign,
    Semi,
    Comma,
    LParen,
    RParen,
}

#[verifier::ext_equal]
pub enum SpecToken {
    Int(int),
    Text(Seq<char>),
    Ident(Seq<char>),
    Plus,
    Minus,
    Star,
    Slash,
    Percent,
    EqEq,
    NotEq,
    GtEq,
    LtEq,
    Gt,
    Lt,
    AndAnd,
    OrOr,
    Bang,
    Assign,
    Semi,
    Comma,
    LParen,
    RParen,
}

impl View for Token {
    type V = SpecToken;

    open spec fn view(&self) -> SpecToken {
        match self {
            Token::Int(v) => SpecToken::Int(*v as int),
            Token::Text(s) => SpecToken::Text(s@),
            Token::Ident(s) => SpecToken::Ident(s@),
            Token::Plus => SpecToken::Plus,
            Token::Minus => SpecToken::Minus,
            Token::Star => SpecToken::Star,
            Token::Slash => SpecToken::Slash,
            Token::Percent => SpecToken::Percent,
            Token::EqEq => SpecToken::EqEq,
            Token::NotEq => SpecToken::NotEq,
            Token::GtEq => SpecToken::GtEq,
            Token::LtEq => SpecToken::LtEq,
            Token::Gt => SpecToken::Gt,
            Token::Lt => SpecToken::Lt,
            Token::AndAnd => SpecToken::AndAnd,
            Token::OrOr => SpecToken::OrOr,
            Token::Bang => SpecToken::Bang,
            Token::Assign => SpecToken::Assign,
            Token::Semi => SpecToken::Semi,
            Token::Comma => SpecToken::Comma,
            Token::LParen => SpecToken::LParen,
            Token::RParen => SpecToken::RParen,
        }
    }
}

/// Whitespace between tokens.
pub open spec fn tok_space(c: char) -> bool {
    c == ' ' || c == '\t' || c == '\r' || c == '\n'
}

/// A decimal digit.
pub open spec fn is_digit(c: char) -> bool {
    '0' <= c && c <= '9'
}

/// A character that may start an identifier.
pub open spec fn ident_start(c: char) -> bool {
    ('a' <= c && c <= 'z') || ('A' <= c && c <= 'Z') || c == '_' || c == '$'
}

/// A character that may continue an identifier.
pub open spec fn ident_char(c: char) -> bool {
    ident_start(c) || is_digit(c) || c == '.' || c == '#'
}

pub open spec fn spec_skip_ws(s: Seq<char>) -> Seq<char>
    decreases s.len(),
{
    if s.len() > 0 && tok_space(s[0]) {
        spec_skip_ws(s.drop_first())
    } else {
        s
    }
}

proof fn lemma_skip_ws_at(s: Seq<char>, i: int)
    requires
        0 <= i <= s.len(),
        forall|k: int| 0 <= k < i ==> tok_space(s[k]),
        i < s.len() ==> !tok_space(s[i]),
    ensures
        spec_skip_ws(s) =~= s.subrange(i, s.len() as int),
    decreases i,
{
    if i == 0 {
        assert(s.subrange(0, s.len() as int) =~= s);
    } else {
        assert(tok_space(s[0]));
        let t = s.drop_first();
        assert(forall|k: int| 0 <= k < i - 1 ==> tok_space(#[trigger] t[k]));
        lemma_skip_ws_at(t, i - 1);
        assert(t.subrange(i - 1, t.len() as int) =~= s.subrange(i, s.len() as int));
    }
}

proof fn lemma_skip_ws_len(s: Seq<char>)
    ensures
        spec_skip_ws(s).len() <= s.len(),
    decreases s.len(),
{
    if s.len() > 0 && tok_space(s[0]) {
        lemma_skip_ws_len(s.drop_first());
    }
}

/// The length of the prefix of `s` whose characters are digits.
pub open spec fn digit_run(s: Seq<char>) -> int
    decreases s.len(),
{
    if s.len() > 0 && is_digit(s[0]) {
        1 + digit_run(s.drop_first())
    } else {
        0
    }
}

proof fn lemma_digit_run(s: Seq<char>)
    ensures
        0 <= digit_run(s) <= s.len(),
        forall|k: int| 0 <= k < digit_run(s) ==> is_digit(s[k]),
        digit_run(s) < s.len() ==> !is_digit(s[digit_run(s)]),
    decreases s.len(),
{
    if s.len() > 0 && is_digit(s[0]) {
        let t = s.drop_first();
        lemma_digit_run(t);
        assert(forall|k: int| 1 <= k < s.len() ==> #[trigger] s[k] == t[k - 1]);
    }
}

/// The length of the prefix of `s` whose characters may continue an
/// identifier.
pub open spec fn ident_run(s: Seq<char>) -> int
    decreases s.len(),
{
    if s.len() > 0 && ident_char(s[0]) {
        1 + ident_run(s.drop_first())
    } else {
        0
    }
}

proof fn lemma_ident_run(s: Seq<char>)
    ensures
        0 <= ident_run(s) <= s.len(),
        forall|k: int| 0 <= k < ident_run(s) ==> ident_char(s[k]),
        ident_run(s) < s.len() ==> !ident_char(s[ident_run(s)]),
    decreases s.len(),
{
    if s.len() > 0 && ident_char(s[0]) {
        let t = s.drop_first();
        lemma_ident_run(t);
        assert(forall|k: int| 1 <= k < s.len() ==> #[trigger] s[k] == t[k - 1]);
    }
}

/// The numeric value of a digit string.
pub open spec fn spec_int_value(s: Seq<char>) -> int
    decreases s.len(),
{
    if s.len() == 0 {
        0
    } else {
        spec_int_value(s.drop_last()) * 10 + (s[s.len() - 1] as int - '0' as int)
    }
}

pub proof fn lemma_int_value_bound(s: Seq<char>, bound: int)
    requires
        forall|k: int| 0 <= k < s.len() ==> is_digit(s[k]),
        s.len() <= bound,
        0 <= bound <= 18,
    ensures
        0 <= spec_int_value(s) < pow10(bound),
    decreases s.len(),
{
    reveal_with_fuel(pow10, 20);
    if s.len() == 0 {
        assert(pow10(bound) >= 1) by {
            lemma_pow10_pos(bound);
        }
    } else {
        let t = s.drop_last();
        lemma_int_value_bound(t, bound - 1);
        assert(s[s.len() - 1] as int - '0' as int <= 9);
        assert(pow10(bound) == pow10(bound - 1) * 10) by {
            lemma_pow10_step(bound);
        }
    }
}

pub open spec fn pow10(n: int) -> int
    decreases (if n > 0 {
        n
    } else {
        0
    }),
{
    if n <= 0 {
        1
    } else {
        10 * pow10(n - 1)
    }
}

proof fn lemma_pow10_pos(n: int)
    ensures
        pow10(n) >= 1,
    decreases (if n > 0 {
        n
    } else {
        0
    }),
{
    if n > 0 {
        lemma_pow10_pos(n - 1);
    }
}

proof fn lemma_pow10_step(n: int)
    requires
        n >= 1,
    ensures
        pow10(n) == pow10(n - 1) * 10,
{
}

/// The first token of `s` and the remaining text, `None` at the end of input,
/// or a tokenizer diagnostic.
pub open spec fn spec_next_token(s: Seq<char>) -> Result<Option<(SpecToken, Seq<char>)>, Seq<char>> {
    let t = spec_skip_ws(s);
    if t.len() == 0 {
        Ok(None)
    } else {
        let c = t[0];
        if c == '&' {
            if t.len() >= 2 && t[1] == '&' {
                Ok(Some((SpecToken::AndAnd, t.skip(2))))
            } else {
                Err("expected && in expression"@)
            }
        } else if c == '|' {
            if t.len() >= 2 && t[1] == '|' {
                Ok(Some((SpecToken::OrOr, t.skip(2))))
            } else {
                Err("expected || in expression"@)
            }
        } else if c == '=' {
            if t.len() >= 2 && t[1] == '=' {
                Ok(Some((SpecToken::EqEq, t.skip(2))))
            } else {
                Ok(Some((SpecToken::Assign, t.skip(1))))
            }
        } else if c == '!' {
            if t.len() >= 2 && t[1] == '=' {
                Ok(Some((SpecToken::NotEq, t.skip(2))))
            } else {
                Ok(Some((SpecToken::Bang, t.skip(1))))
            }
        } else if c == '>' {
            if t.len() >= 2 && t[1] == '=' {
                Ok(Some((SpecToken::GtEq, t.skip(2))))
            } else {
                Ok(Some((SpecToken::Gt, t.skip(1))))
            }
        } else if c == '<' {
            if t.len() >= 2 && t[1] == '=' {
                Ok(Some((SpecToken::LtEq, t.skip(2))))
            } else {
                Ok(Some((SpecToken::Lt, t.skip(1))))
            }
        } else if c == '+' {
            Ok(Some((SpecToken::Plus, t.skip(1))))
        } else if c == '-' {
            Ok(Some((SpecToken::Minus, t.skip(1))))
        } else if c == '*' {
            Ok(Some((SpecToken::Star, t.skip(1))))
        } else if c == '/' {
            Ok(Some((SpecToken::Slash, t.skip(1))))
        } else if c == '%' {
            Ok(Some((SpecToken::Percent, t.skip(1))))
        } else if c == ';' {
            Ok(Some((SpecToken::Semi, t.skip(1))))
        } else if c == ',' {
            Ok(Some((SpecToken::Comma, t.skip(1))))
        } else if c == '(' {
            Ok(Some((SpecToken::LParen, t.skip(1))))
        } else if c == ')' {
            Ok(Some((SpecToken::RParen, t.skip(1))))
        } else if c == '"' {
            let qi = crate::text::spec_index_of(t.skip(1), '"');
            if qi < 0 {
                Err("unterminated string literal"@)
            } else {
                Ok(Some((SpecToken::Text(t.skip(1).take(qi)), t.skip(qi + 2))))
            }
        } else if is_digit(c) {
            let run = digit_run(t);
            if run > 18 {
                Err("number literal too large"@)
            } else {
                Ok(Some((SpecToken::Int(spec_int_value(t.take(run))), t.skip(run))))
            }
        } else if ident_start(c) {
            let run = ident_run(t);
            Ok(Some((SpecToken::Ident(t.take(run)), t.skip(run))))
        } else {
            Err("unexpected character in expression"@)
        }
    }
}

proof fn lemma_next_token_consumes(s: Seq<char>)
    ensures
        spec_next_token(s) matches Ok(Some((t, rest))) ==> rest.len() < s.len(),
{
    lemma_skip_ws_len(s);
    let t = spec_skip_ws(s);
    if t.len() > 0 {
        if t[0] == '"' {
            crate::text::lemma_index_of_bounds(t.skip(1), '"');
        } else if is_digit(t[0]) {
            lemma_digit_run(t);
        } else if ident_start(t[0]) && !is_digit(t[0]) {
            lemma_ident_run(t);
            assert(ident_run(t) >= 1);
        }
    }
}

/// All tokens of `s`, or the first tokenizer diagnostic.
pub open spec fn spec_tokenize(s: Seq<char>) -> Result<Seq<SpecToken>, Seq<char>>
    decreases s.len(),
    via spec_tokenize_dec
{
    match spec_next_token(s) {
        Err(e) => Err(e),
        Ok(None) => Ok(Seq::empty()),
        Ok(Some((t, rest))) => match spec_tokenize(rest) {
            Err(e) => Err(e),
            Ok(toks) => Ok(seq![t] + toks),
        },
    }
}

#[via_fn]
proof fn spec_tokenize_dec(s: Seq<char>) {
    lemma_next_token_consumes(s);
}

/// Reads the first token of the remaining text.
fn next_token(v: &Vec<char>, start: usize) -> (r: Result<Option<(Token, usize)>, String>)
    requires
        start <= v@.len(),
    ensures
        match r {
            Ok(None) => spec_next_token(v@.skip(start as int)) == Result::<
                Option<(SpecToken, Seq<char>)>,
                Seq<char>,
            >::Ok(None),
            Ok(Some((t, j))) => {
                &&& start < j <= v@.len()
                &&& spec_next_token(v@.skip(start as int)) matches Ok(Some((st, rest)))
                &&& st == t@
                &&& rest =~= v@.skip(j as int)
            },
            Err(e) => spec_next_token(v@.skip(start as int)) matches Err(m) && m == e@,
        },
{
    let ghost s = v@.skip(start as int);
    let n = v.len();
    let mut i: usize = start;
    while i < n && crate::text::is_space_char(v[i]) || i < n && v[i] == '\n'
        invariant
            start <= i <= n == v@.len(),
            forall|k: int| start <= k < i ==> tok_space(v@[k]),
        decreases n - i,
    {
        i += 1;
    }
    proof {
        assert(forall|k: int| 0 <= k < i - start ==> tok_space(#[trigger] s[k]));
        assert(i < n ==> !tok_space(s[i - start]));
        lemma_skip_ws_at(s, i - start);
        assert(spec_skip_ws(s) =~= v@.skip(i as int));
    }
    let ghost t = spec_skip_ws(s);
    if i == n {
        return Ok(None);
    }
    let c = v[i];
    proof {
        assert(t[0] == c);
    }
    if c == '&' {
        if i + 1 < n && v[i + 1] == '&' {
            proof {
                assert(t.len() >= 2 && t[1] == '&');
                assert(t.skip(2) =~= v@.skip(i + 2));
            }
            Ok(Some((Token::AndAnd, i + 2)))
        } else {
            proof {
                if t.len() >= 2 {
                    assert(t[1] == v@[i + 1]);
                }
            }
            Err(String::from_str("expected && in expression"))
        }
    } else if c == '|' {
        if i + 1 < n && v[i + 1] == '|' {
            proof {
                assert(t.len() >= 2 && t[1] == '|');
                assert(t.skip(2) =~= v@.skip(i + 2));
            }
            Ok(Some((Token::OrOr, i + 2)))
        } else {
            proof {
                if t.len() >= 2 {
                    assert(t[1] == v@[i + 1]);
                }
            }
            Err(String::from_str("expected || in expression"))
        }
    } else if c == '=' {
        if i + 1 < n && v[i + 1] == '=' {
            proof {
                assert(t.len() >= 2 && t[1] == '=');
                assert(t.skip(2) =~= v@.skip(i + 2));
            }
            Ok(Some((Token::EqEq, i + 2)))
        } else {
            proof {
                if t.len() >= 2 {
                    assert(t[1] == v@[i + 1]);
                }
                assert(t.skip(1) =~= v@.skip(i + 1));
            }
            Ok(Some((Token::Assign, i + 1)))
        }
    } else if c == '!' {
        if i + 1 < n && v[i + 1] == '=' {
            proof {
                assert(t.len() >= 2 && t[1] == '=');
                assert(t.skip(2) =~= v@.skip(i + 2));
            }
            Ok(Some((Token::NotEq, i + 2)))
        } else {
            proof {
                if t.len() >= 2 {
                    assert(t[1] == v@[i + 1]);
                }
                assert(t.skip(1) =~= v@.skip(i + 1));
            }
            Ok(Some((Token::Bang, i + 1)))
        }
    } else if c == '>' {
        if i + 1 < n && v[i + 1] == '=' {
            proof {
                assert(t.len() >= 2 && t[1] == '=');
                assert(t.skip(2) =~= v@.skip(i + 2));
            }
            Ok(Some((Token::GtEq, i + 2)))
        } else {
            proof {
                if t.len() >= 2 {
                    assert(t[1] == v@[i + 1]);
                }
                assert(t.skip(1) =~= v@.skip(i + 1));
            }
            Ok(Some((Token::Gt, i + 1)))
        }
    } else if c == '<' {
        if i + 1 < n && v[i + 1] == '=' {
            proof {
                assert(t.len() >= 2 && t[1] == '=');
                assert(t.skip(2) =~= v@.skip(i + 2));
            }
            Ok(Some((Token::LtEq, i + 2)))
        } else {
            proof {
                if t.len() >= 2 {
                    assert(t[1] == v@[i + 1]);
                }
                assert(t.skip(1) =~= v@.skip(i + 1));
            }
            Ok(Some((Token::Lt, i + 1)))
        }
    } else if c == '+' || c == '-' || c == '*' || c == '/' || c == '%' || c == ';' || c == ','
        || c == '(' || c == ')' {
        proof {
            assert(t.skip(1) =~= v@.skip(i + 1));
        }
        let tok = if c == '+' {
            Token::Plus
        } else if c == '-' {
            Token::Minus
        } else if c == '*' {
            Token::Star
        } else if c == '/' {
            Token::Slash
        } else if c == '%' {
            Token::Percent
        } else if c == ';' {
            Token::Semi
        } else if c == ',' {
            Token::Comma
        } else if c == '(' {
            Token::LParen
        } else {
            Token::RParen
        };
        Ok(Some((tok, i + 1)))
    } else if c == '"' {
        let ghost t1 = t.skip(1);
        proof {
            assert(t1 =~= v@.skip(i + 1));
            crate::text::lemma_index_of_bounds(t1, '"');
        }
        let tail = crate::text::subvec(v, i + 1, n);
        proof {
            assert(tail@ =~= t1);
        }
        match crate::text::index_of_char(&tail, '"') {
            None => Err(String::from_str("unterminated string literal")),
            Some(qi) => {
                let lit = crate::text::chars_to_string(&crate::text::subvec(&tail, 0, qi));
                proof {
                    assert(lit@ =~= t1.take(qi as int));
                    assert(t.skip(qi + 2) =~= v@.skip(i + 1 + qi + 1));
                }
                Ok(Some((Token::Text(lit), i + 1 + qi + 1)))
            },
        }
    } else if '0' <= c && c <= '9' {
        proof {
            lemma_digit_run(t);
        }
        let mut j: usize = i;
        while j < n && '0' <= v[j] && v[j] <= '9'
            invariant
                i <= j <= n == v@.len(),
                forall|k: int| i <= k < j ==> is_digit(v@[k]),
            decreases n - j,
        {
            j += 1;
        }
        proof {
            assert(forall|k: int| 0 <= k < j - i ==> is_digit(#[trigger] t[k]));
            assert(j - i < t.len() ==> !is_digit(t[j - i]));
            assert(digit_run(t) == j - i) by {
                lemma_digit_run(t);
                if digit_run(t) < j - i {
                    assert(is_digit(t[digit_run(t)]));
                }
                if digit_run(t) > j - i {
                    assert(is_digit(t[(j - i) as int]));
                }
            }
        }
        if j - i > 18 {
            return Err(String::from_str("number literal too large"));
        }
        let ghost digits = t.take((j - i) as int);
        proof {
            lemma_int_value_bound(digits, 18);
            reveal_with_fuel(pow10, 20);
            assert(digits.len() == j - i);
            assert(forall|m: int| 0 <= m < j - i ==> digits[m] == v@[i + m]);
            assert(spec_int_value(digits.take(0)) == 0);
        }
        let mut value: i64 = 0;
        let mut k: usize = i;
        while k < j
            invariant
                i <= k <= j <= n == v@.len(),
                j - i <= 18,
                forall|m: int| i <= m < j ==> is_digit(v@[m]),
                digits.len() == j - i,
                forall|m: int| 0 <= m < j - i ==> digits[m] == v@[i + m],
                forall|m: int| 0 <= m < j - i ==> is_digit(digits[m]),
                value as int == spec_int_value(digits.take((k - i) as int)),
                0 <= value as int,
                (value as int) < pow10((k - i) as int),
            decreases j - k,
        {
            let d = v[k];
            proof {
                reveal_with_fuel(pow10, 20);
                lemma_pow10_step((k - i + 1) as int);
                assert(digits.take((k - i + 1) as int).drop_last() =~= digits.take((k - i) as int));
                assert(digits.take((k - i + 1) as int).last() == digits[(k - i) as int]);
                assert(digits[(k - i) as int] == v@[k as int]);
                lemma_int_value_bound(digits.take((k - i + 1) as int), 18);
            }
            value = value * 10 + (d as i64 - 48);
            k += 1;
        }
        proof {
            assert(digits.take((j - i) as int) =~= digits);
            assert(t.skip((j - i) as int) =~= v@.skip(j as int));
        }
        Ok(Some((Token::Int(value), j)))
    } else if ('a' <= c && c <= 'z') || ('A' <= c && c <= 'Z') || c == '_' || c == '$' {
        proof {
            lemma_ident_run(t);
        }
        let mut j: usize = i;
        while j < n && (('a' <= v[j] && v[j] <= 'z') || ('A' <= v[j] && v[j] <= 'Z') || v[j] == '_'
            || v[j] == '$' || ('0' <= v[j] && v[j] <= '9') || v[j] == '.' || v[j] == '#')
            invariant
                i <= j <= n == v@.len(),
                forall|k: int| i <= k < j ==> ident_char(v@[k]),
            decreases n - j,
        {
            j += 1;
        }
        proof {
            assert(forall|k: int| 0 <= k < j - i ==> ident_char(#[trigger] t[k]));
            assert(j - i < t.len() ==> !ident_char(t[j - i]));
            assert(ident_run(t) == j - i) by {
                lemma_ident_run(t);
                if ident_run(t) < j - i {
                    assert(ident_char(t[ident_run(t)]));
                }
                if ident_run(t) > j - i {
                    assert(ident_char(t[(j - i) as int]));
                }
            }
        }
        let name = crate::text::chars_to_string(&crate::text::subvec(v, i, j));
        proof {
            assert(name@ =~= t.take((j - i) as int));
            assert(t.skip((j - i) as int) =~= v@.skip(j as int));
        }
        Ok(Some((Token::Ident(name), j)))
    } else {
        Err(String::from_str("unexpected character in expression"))
    }
}

/// Tokenizes a whole expression.
fn tokenize(v: &Vec<char>) -> (r: Result<Vec<Token>, String>)
    ensures
        match r {
            Ok(toks) => spec_tokenize(v@) == Result::<Seq<SpecToken>, Seq<char>>::Ok(
                toks@.map_values(|t: Token| t@),
            ),
            Err(e) => spec_tokenize(v@) matches Err(m) && m == e@,
        },
{
    let mut toks: Vec<Token> = Vec::new();
    let mut i: usize = 0;
    let n = v.len();
    proof {
        assert(v@.skip(0) =~= v@);
        assert(toks@.map_values(|t: Token| t@) =~= Seq::<SpecToken>::empty());
        if spec_tokenize(v@) is Ok {
            assert(spec_tokenize(v@)->Ok_0 =~= toks@.map_values(|t: Token| t@) + spec_tokenize(
                v@,
            )->Ok_0);
        }
    }
    loop
        invariant
            0 <= i <= n == v@.len(),
            spec_tokenize(v@) matches Ok(all) ==> {
                &&& spec_tokenize(v@.skip(i as int)) matches Ok(rest)
                &&& all =~= toks@.map_values(|t: Token| t@) + rest
            },
            spec_tokenize(v@) matches Err(e) ==> spec_tokenize(v@.skip(i as int)) == Result::<
                Seq<SpecToken>,
                Seq<char>,
            >::Err(e),
        decreases n - i,
    {
        match next_token(v, i) {
            Ok(None) => {
                proof {
                    if spec_tokenize(v@) is Ok {
                        assert(spec_tokenize(v@)->Ok_0 =~= toks@.map_values(|t: Token| t@));
                    }
                }
                return Ok(toks);
            },
            Ok(Some((t, j))) => {
                let ghost toks0 = toks@.map_values(|t: Token| t@);
                toks.push(t);
                proof {
                    assert(toks@.map_values(|t: Token| t@) =~= toks0.push(t@));
                    if spec_tokenize(v@) is Ok {
                        assert(toks0.push(t@) + spec_tokenize(v@.skip(j as int))->Ok_0 =~= toks0 + (
                        seq![t@] + spec_tokenize(v@.skip(j as int))->Ok_0));
                    }
                }
                i = j;
            },
            Err(e) => {
                return Err(e);
            },
        }
    }
}

} // verus!

verus! {

/// The view of a token vector.
pub open spec fn toks_view(v: Vec<Token>) -> Seq<SpecToken> {
    v@.map_values(|t: Token| t@)
}

/// The binary operator that a token denotes at a precedence level, lowest
/// level first: boolean or, boolean and, comparison, additive, multiplicative.
pub open spec fn spec_level_op(level: int, t: SpecToken) -> Option<SpecOperator> {
    if level == 0 {
        match t {
            SpecToken::OrOr => Some(SpecOperator::Or),
            _ => None,
        }
    } else if level == 1 {
        match t {
            SpecToken::AndAnd => Some(SpecOperator::And),
            _ => None,
        }
    } else if level == 2 {
        match t {
            SpecToken::EqEq => Some(SpecOperator::Eq),
            SpecToken::NotEq => Some(SpecOperator::Neq),
            SpecToken::GtEq => Some(SpecOperator::Geq),
            SpecToken::LtEq => Some(SpecOperator::Leq),
            SpecToken::Gt => Some(SpecOperator::Gt),
            SpecToken::Lt => Some(SpecOperator::Lt),
            _ => None,
        }
    } else if level == 3 {
        match t {
            SpecToken::Plus => Some(SpecOperator::Add),
            SpecToken::Minus => Some(SpecOperator::Sub),
            _ => None,
        }
    } else {
        match t {
            SpecToken::Star => Some(SpecOperator::Mul),
            SpecToken::Slash => Some(SpecOperator::Div),
            SpecToken::Percent => Some(SpecOperator::Mod),
            _ => None,
        }
    }
}

pub open spec fn spec_node1(op: SpecOperator, a: SpecExprNode) -> SpecExprNode {
    SpecExprNode { operator: op, children: seq![a] }
}

pub open spec fn spec_node2(op: SpecOperator, a: SpecExprNode, b: SpecExprNode) -> SpecExprNode {
    SpecExprNode { operator: op, children: seq![a, b] }
}

/// A statement chain: expressions separated by `;`.
pub open spec fn spec_parse_chain(toks: Seq<SpecToken>, i: int) -> Result<
    (SpecExprNode, int),
    Seq<char>,
>
    decreases toks.len() - i, 9int,
{
    if !(0 <= i <= toks.len()) {
        Err("parser out of bounds"@)
    } else {
        match spec_parse_expr(toks, i) {
            Err(e) => Err(e),
            Ok((first, j)) => {
                if i < j <= toks.len() {
                    match spec_chain_items(toks, j, seq![first]) {
                        Err(e) => Err(e),
                        Ok((items, k)) => if items.len() == 1 {
                            Ok((items[0], k))
                        } else {
                            Ok((SpecExprNode { operator: SpecOperator::Chain, children: items }, k))
                        },
                    }
                } else {
                    Err("parser made no progress"@)
                }
            },
        }
    }
}

pub open spec fn spec_chain_items(toks: Seq<SpecToken>, i: int, acc: Seq<SpecExprNode>) -> Result<
    (Seq<SpecExprNode>, int),
    Seq<char>,
>
    decreases toks.len() - i, 10int,
{
    if !(0 <= i <= toks.len()) {
        Err("parser out of bounds"@)
    } else if i < toks.len() && toks[i] is Semi {
        match spec_parse_expr(toks, i + 1) {
            Err(e) => Err(e),
            Ok((n, j)) => {
                if i + 1 < j <= toks.len() {
                    spec_chain_items(toks, j, acc.push(n))
                } else {
                    Err("parser made no progress"@)
                }
            },
        }
    } else {
        Ok((acc, i))
    }
}

/// One expression: an assignment, or a binary expression.
pub open spec fn spec_parse_expr(toks: Seq<SpecToken>, i: int) -> Result<
    (SpecExprNode, int),
    Seq<char>,
>
    decreases toks.len() - i, 8int,
{
    if !(0 <= i <= toks.len()) {
        Err("parser out of bounds"@)
    } else if i + 1 < toks.len() && toks[i] is Ident && toks[i + 1] is Assign {
        let name = toks[i]->Ident_0;
        match spec_parse_expr(toks, i + 2) {
            Err(e) => Err(e),
            Ok((rhs, j)) => Ok(
                (
                    spec_node2(
                        SpecOperator::Assign,
                        SpecExprNode {
                            operator: SpecOperator::VariableIdentifierWrite(name),
                            children: Seq::empty(),
                        },
                        rhs,
                    ),
                    j,
                ),
            ),
        }
    } else {
        spec_parse_bin(toks, i, 0)
    }
}

/// Left-associative binary expressions by precedence level.
pub open spec fn spec_parse_bin(toks: Seq<SpecToken>, i: int, level: int) -> Result<
    (SpecExprNode, int),
    Seq<char>,
>
    decreases toks.len() - i, 7int - level,
{
    if !(0 <= i <= toks.len() && 0 <= level <= 4) {
        Err("parser out of bounds"@)
    } else {
        let first = if level == 4 {
            spec_parse_unary(toks, i)
        } else {
            spec_parse_bin(toks, i, level + 1)
        };
        match first {
            Err(e) => Err(e),
            Ok((n, j)) => {
                if i < j <= toks.len() {
                    spec_bin_rest(toks, j, level, n)
                } else {
                    Err("parser made no progress"@)
                }
            },
        }
    }
}

pub open spec fn spec_bin_rest(toks: Seq<SpecToken>, i: int, level: int, acc: SpecExprNode) -> Result<
    (SpecExprNode, int),
    Seq<char>,
>
    decreases toks.len() - i, 8int - level,
{
    if !(0 <= i <= toks.len() && 0 <= level <= 4) {
        Err("parser out of bounds"@)
    } else if i < toks.len() && spec_level_op(level, toks[i]) is Some {
        let op = spec_level_op(level, toks[i])->Some_0;
        let rhs = if level == 4 {
            spec_parse_unary(toks, i + 1)
        } else {
            spec_parse_bin(toks, i + 1, level + 1)
        };
        match rhs {
            Err(e) => Err(e),
            Ok((n, j)) => {
                if i + 1 <= j <= toks.len() && i < j {
                    spec_bin_rest(toks, j, level, spec_node2(op, acc, n))
                } else {
                    Err("parser made no progress"@)
                }
            },
        }
    } else {
        Ok((acc, i))
    }
}

/// Unary negations, then primaries.
pub open spec fn spec_parse_unary(toks: Seq<SpecToken>, i: int) -> Result<
    (SpecExprNode, int),
    Seq<char>,
>
    decreases toks.len() - i, 2int,
{
    if !(0 <= i <= toks.len()) {
        Err("parser out of bounds"@)
    } else if i < toks.len() && toks[i] is Bang {
        match spec_parse_unary(toks, i + 1) {
            Err(e) => Err(e),
            Ok((n, j)) => Ok((spec_node1(SpecOperator::Not, n), j)),
        }
    } else if i < toks.len() && toks[i] is Minus {
        match spec_parse_unary(toks, i + 1) {
            Err(e) => Err(e),
            Ok((n, j)) => Ok((spec_node1(SpecOperator::Neg, n), j)),
        }
    } else {
        spec_parse_primary(toks, i)
    }
}

/// Function-call arguments after the opening parenthesis.
pub open spec fn spec_parse_args(toks: Seq<SpecToken>, i: int, acc: Seq<SpecExprNode>) -> Result<
    (Seq<SpecExprNode>, int),
    Seq<char>,
>
    decreases toks.len() - i, 9int,
{
    if !(0 <= i <= toks.len()) {
        Err("parser out of bounds"@)
    } else {
        match spec_parse_expr(toks, i) {
            Err(e) => Err(e),
            Ok((n, j)) => {
                if i < j <= toks.len() {
                    if j < toks.len() && toks[j] is Comma {
                        if j + 1 > i {
                            spec_parse_args(toks, j + 1, acc.push(n))
                        } else {
                            Err("parser made no progress"@)
                        }
                    } else {
                        Ok((acc.push(n), j))
                    }
                } else {
                    Err("parser made no progress"@)
                }
            },
        }
    }
}

/// A primary: a literal, an identifier, a function call, or a parenthesized
/// group (which may be a chain or a tuple).
pub open spec fn spec_parse_primary(toks: Seq<SpecToken>, i: int) -> Result<
    (SpecExprNode, int),
    Seq<char>,
>
    decreases toks.len() - i, 1int,
{
    if !(0 <= i <= toks.len()) {
        Err("parser out of bounds"@)
    } else if i >= toks.len() {
        Err("expected a value"@)
    } else {
        match toks[i] {
            SpecToken::Int(v) => Ok(
                (
                    SpecExprNode {
                        operator: SpecOperator::Const(SpecExprValue::Int(v)),
                        children: Seq::empty(),
                    },
                    i + 1,
                ),
            ),
            SpecToken::Text(s) => Ok(
                (
                    SpecExprNode {
                        operator: SpecOperator::Const(SpecExprValue::Text(s)),
                        children: Seq::empty(),
                    },
                    i + 1,
                ),
            ),
            SpecToken::Ident(name) => {
                if name == "true"@ {
                    Ok(
                        (
                            SpecExprNode {
                                operator: SpecOperator::Const(SpecExprValue::Boolean(true)),
                                children: Seq::empty(),
                            },
                            i + 1,
                        ),
                    )
                } else if name == "false"@ {
                    Ok(
                        (
                            SpecExprNode {
                                operator: SpecOperator::Const(SpecExprValue::Boolean(false)),
                                children: Seq::empty(),
                            },
                            i + 1,
                        ),
                    )
                } else if i + 1 < toks.len() && toks[i + 1] is LParen {
                    if i + 2 < toks.len() && toks[i + 2] is RParen {
                        Ok(
                            (
                                spec_node1(
                                    SpecOperator::FunctionIdentifier(name),
                                    SpecExprNode {
                                        operator: SpecOperator::Tuple,
                                        children: Seq::empty(),
                                    },
                                ),
                                i + 3,
                            ),
                        )
                    } else {
                        match spec_parse_args(toks, i + 2, Seq::empty()) {
                            Err(e) => Err(e),
                            Ok((args, j)) => {
                                if j < toks.len() && toks[j] is RParen {
                                    Ok(
                                        (
                                            spec_node1(
                                                SpecOperator::FunctionIdentifier(name),
                                                SpecExprNode {
                                                    operator: SpecOperator::Tuple,
                                                    children: args,
                                                },
                                            ),
                                            j + 1,
                                        ),
                                    )
                                } else {
                                    Err("expected ) after function arguments"@)
                                }
                            },
                        }
                    }
                } else {
                    Ok(
                        (
                            SpecExprNode {
                                operator: SpecOperator::VariableIdentifierRead(name),
                                children: Seq::empty(),
                            },
                            i + 1,
                        ),
                    )
                }
            },
            SpecToken::LParen => {
                match spec_parse_expr(toks, i + 1) {
                    Err(e) => Err(e),
                    Ok((first, j)) => {
                        if i + 1 < j <= toks.len() {
                            if j < toks.len() && toks[j] is Comma {
                                match spec_parse_args(toks, j + 1, seq![first]) {
                                    Err(e) => Err(e),
                                    Ok((items, k)) => {
                                        if k < toks.len() && toks[k] is RParen {
                                            Ok(
                                                (
                                                    spec_node1(
                                                        SpecOperator::RootNode,
                                                        SpecExprNode {
                                                            operator: SpecOperator::Tuple,
                                                            children: items,
                                                        },
                                                    ),
                                                    k + 1,
                                                ),
                                            )
                                        } else {
                                            Err("expected ) after tuple"@)
                                        }
                                    },
                                }
                            } else if j < toks.len() && toks[j] is Semi {
                                match spec_chain_items(toks, j, seq![first]) {
                                    Err(e) => Err(e),
                                    Ok((items, k)) => {
                                        if k < toks.len() && toks[k] is RParen {
                                            Ok(
                                                (
                                                    spec_node1(
                                                        SpecOperator::RootNode,
                                                        SpecExprNode {
                                                            operator: SpecOperator::Chain,
                                                            children: items,
                                                        },
                                                    ),
                                                    k + 1,
                                                ),
                                            )
                                        } else {
                                            Err("expected ) after chain"@)
                                        }
                                    },
                                }
                            } else if j < toks.len() && toks[j] is RParen {
                                Ok((spec_node1(SpecOperator::RootNode, first), j + 1))
                            } else {
                                Err("expected ) after group"@)
                            }
                        } else {
                            Err("parser made no progress"@)
                        }
                    },
                }
            },
            _ => Err("expected a value"@),
        }
    }
}

/// The whole expression: its tokens parsed as one chain under the root.
pub open spec fn spec_parse_tokens(toks: Seq<SpecToken>) -> Result<SpecExprNode, Seq<char>> {
    if toks.len() == 0 {
        Ok(SpecExprNode { operator: SpecOperator::RootNode, children: Seq::empty() })
    } else {
        match spec_parse_chain(toks, 0) {
            Err(e) => Err(e),
            Ok((n, j)) => {
                if j == toks.len() {
                    Ok(spec_node1(SpecOperator::RootNode, n))
                } else {
                    Err("unexpected token after expression"@)
                }
            },
        }
    }
}

/// What parsing a whole source string yields.
pub open spec fn spec_build(s: Seq<char>) -> Result<SpecExprNode, Seq<char>> {
    match spec_tokenize(s) {
        Err(e) => Err(e),
        Ok(toks) => spec_parse_tokens(toks),
    }
}

} // verus!

verus! {

/// Builds a one-child node.
fn node1(op: Operator, a: ExprNode) -> (r: ExprNode)
    ensures
        r@ == spec_node1(op@, a@),
{
    let mut children: Vec<ExprNode> = Vec::new();
    children.push(a);
    let r = ExprNode { operator: op, children };
    proof {
        lemma_expr_nodes_view(r.children, r.children@.len() as int);
        assert(r@.children =~= seq![a@]);
        assert(r@ =~~= spec_node1(op@, a@));
    }
    r
}

/// Builds a two-child node.
fn node2(op: Operator, a: ExprNode, b: ExprNode) -> (r: ExprNode)
    ensures
        r@ == spec_node2(op@, a@, b@),
{
    let ghost av = a@;
    let ghost bv = b@;
    let mut children: Vec<ExprNode> = Vec::new();
    children.push(a);
    children.push(b);
    let r = ExprNode { operator: op, children };
    proof {
        lemma_expr_nodes_view(r.children, r.children@.len() as int);
        assert(r@.children =~= seq![av, bv]);
        assert(r@ =~~= spec_node2(op@, av, bv));
    }
    r
}

/// The binary operator a token denotes at one precedence level.
fn level_op(level: usize, t: &Token) -> (r: Option<Operator>)
    ensures
        match r {
            Some(op) => spec_level_op(level as int, t@) == Some(op@),
            None => spec_level_op(level as int, t@) is None,
        },
{
    if level == 0 {
        match t {
            Token::OrOr => Some(Operator::Or),
            _ => None,
        }
    } else if level == 1 {
        match t {
            Token::AndAnd => Some(Operator::And),
            _ => None,
        }
    } else if level == 2 {
        match t {
            Token::EqEq => Some(Operator::Eq),
            Token::NotEq => Some(Operator::Neq),
            Token::GtEq => Some(Operator::Geq),
            Token::LtEq => Some(Operator::Leq),
            Token::Gt => Some(Operator::Gt),
            Token::Lt => Some(Operator::Lt),
            _ => None,
        }
    } else if level == 3 {
        match t {
            Token::Plus => Some(Operator::Add),
            Token::Minus => Some(Operator::Sub),
            _ => None,
        }
    } else {
        match t {
            Token::Star => Some(Operator::Mul),
            Token::Slash => Some(Operator::Div),
            Token::Percent => Some(Operator::Mod),
            _ => None,
        }
    }
}

fn parse_chain(toks: &Vec<Token>, i: usize) -> (r: Result<(ExprNode, usize), String>)
    requires
        i <= toks@.len(),
    ensures
        match r {
            Ok((n, j)) => spec_parse_chain(toks_view(*toks), i as int) == Result::<
                (SpecExprNode, int),
                Seq<char>,
            >::Ok((n@, j as int)) && i < j <= toks@.len(),
            Err(e) => spec_parse_chain(toks_view(*toks), i as int) matches Err(m) && m == e@,
        },
    decreases toks@.len() - i, 9int,
{
    match parse_expr(toks, i) {
        Err(e) => Err(e),
        Ok((first, j)) => {
            let mut acc: Vec<ExprNode> = Vec::new();
            let ghost fv = first@;
            acc.push(first);
            proof {
                lemma_expr_nodes_view(acc, acc@.len() as int);
                assert(all_expr_nodes_view(acc) =~= seq![fv]);
            }
            match chain_items(toks, j, acc) {
                Err(e) => Err(e),
                Ok((items, k)) => {
                    proof {
                        lemma_expr_nodes_view(items, items@.len() as int);
                    }
                    if items.len() == 1 {
                        let ghost items0 = items;
                        let mut items = items;
                        let n = match items.pop() {
                            Some(n) => n,
                            None => ExprNode::leaf(Operator::RootNode),
                        };
                        proof {
                            assert(n == items0[0]);
                            assert(n@ == all_expr_nodes_view(items0)[0]);
                            assert(n@ == spec_parse_chain(toks_view(*toks), i as int)->Ok_0.0);
                        }
                        Ok((n, k))
                    } else {
                        let ghost iv = all_expr_nodes_view(items);
                        let n = ExprNode { operator: Operator::Chain, children: items };
                        proof {
                            assert(n@.children == iv);
                            assert(n@ =~~= spec_parse_chain(toks_view(*toks), i as int)->Ok_0.0);
                        }
                        Ok((n, k))
                    }
                },
            }
        },
    }
}

fn chain_items(toks: &Vec<Token>, i: usize, acc: Vec<ExprNode>) -> (r: Result<
    (Vec<ExprNode>, usize),
    String,
>)
    requires
        i <= toks@.len(),
    ensures
        match r {
            Ok((items, j)) => spec_chain_items(toks_view(*toks), i as int, all_expr_nodes_view(acc))
                == Result::<(Seq<SpecExprNode>, int), Seq<char>>::Ok(
                (all_expr_nodes_view(items), j as int),
            ) && i <= j <= toks@.len(),
            Err(e) => spec_chain_items(toks_view(*toks), i as int, all_expr_nodes_view(acc))
                matches Err(m) && m == e@,
        },
    decreases toks@.len() - i, 10int,
{
    let n = toks.len();
    proof {
        assert(toks_view(*toks).len() == n);
        if (i as int) < n {
            assert(toks_view(*toks)[i as int] == toks[i as int]@);
        }
    }
    if i < n && matches!(&toks[i], Token::Semi) {
        match parse_expr(toks, i + 1) {
            Err(e) => Err(e),
            Ok((node, j)) => {
                let ghost accg = acc;
                let ghost acc0 = all_expr_nodes_view(acc);
                let ghost nv = node@;
                let mut acc = acc;
                acc.push(node);
                proof {
                    lemma_expr_nodes_view(accg, accg@.len() as int);
                    lemma_expr_nodes_view(acc, acc@.len() as int);
                    assert(acc0.len() + 1 == acc@.len());
                    assert(all_expr_nodes_view(acc) =~= acc0.push(nv));
                }
                chain_items(toks, j, acc)
            },
        }
    } else {
        Ok((acc, i))
    }
}

fn parse_expr(toks: &Vec<Token>, i: usize) -> (r: Result<(ExprNode, usize), String>)
    requires
        i <= toks@.len(),
    ensures
        match r {
            Ok((n, j)) => spec_parse_expr(toks_view(*toks), i as int) == Result::<
                (SpecExprNode, int),
                Seq<char>,
            >::Ok((n@, j as int)) && i < j <= toks@.len(),
            Err(e) => spec_parse_expr(toks_view(*toks), i as int) matches Err(m) && m == e@,
        },
    decreases toks@.len() - i, 8int,
{
    let n = toks.len();
    proof {
        if (i as int) < n {
            assert(toks_view(*toks)[i as int] == toks[i as int]@);
        }
        if i + 1 < n {
            assert(toks_view(*toks)[i + 1] == toks[i + 1 as int]@);
        }
    }
    if i < n && i + 1 < n && matches!(&toks[i], Token::Ident(_)) && matches!(
        &toks[i + 1],
        Token::Assign,
    ) {
        let name = match &toks[i] {
            Token::Ident(s) => s.clone(),
            _ => String::new(),
        };
        match parse_expr(toks, i + 2) {
            Err(e) => Err(e),
            Ok((rhs, j)) => {
                let w = ExprNode::leaf(Operator::VariableIdentifierWrite(name));
                let node = node2(Operator::Assign, w, rhs);
                proof {
                    assert(node@ =~~= spec_parse_expr(toks_view(*toks), i as int)->Ok_0.0);
                }
                Ok((node, j))
            },
        }
    } else {
        parse_bin(toks, i, 0)
    }
}

fn parse_bin(toks: &Vec<Token>, i: usize, level: usize) -> (r: Result<(ExprNode, usize), String>)
    requires
        i <= toks@.len(),
        level <= 4,
    ensures
        match r {
            Ok((n, j)) => spec_parse_bin(toks_view(*toks), i as int, level as int) == Result::<
                (SpecExprNode, int),
                Seq<char>,
            >::Ok((n@, j as int)) && i < j <= toks@.len(),
            Err(e) => spec_parse_bin(toks_view(*toks), i as int, level as int) matches Err(m) && m
                == e@,
        },
    decreases toks@.len() - i, 7int - level,
{
    let first = if level == 4 {
        parse_unary(toks, i)
    } else {
        parse_bin(toks, i, level + 1)
    };
    match first {
        Err(e) => Err(e),
        Ok((n, j)) => bin_rest(toks, j, level, n),
    }
}

fn bin_rest(toks: &Vec<Token>, i: usize, level: usize, acc: ExprNode) -> (r: Result<
    (ExprNode, usize),
    String,
>)
    requires
        i <= toks@.len(),
        level <= 4,
    ensures
        match r {
            Ok((n, j)) => spec_bin_rest(toks_view(*toks), i as int, level as int, acc@) == Result::<
                (SpecExprNode, int),
                Seq<char>,
            >::Ok((n@, j as int)) && i <= j <= toks@.len(),
            Err(e) => spec_bin_rest(toks_view(*toks), i as int, level as int, acc@) matches Err(m)
                && m == e@,
        },
    decreases toks@.len() - i, 8int - level,
{
    let n = toks.len();
    proof {
        if (i as int) < n {
            assert(toks_view(*toks)[i as int] == toks[i as int]@);
        }
    }
    if i < n {
        match level_op(level, &toks[i]) {
            Some(op) => {
                let rhs = if level == 4 {
                    parse_unary(toks, i + 1)
                } else {
                    parse_bin(toks, i + 1, level + 1)
                };
                match rhs {
                    Err(e) => Err(e),
                    Ok((rn, j)) => {
                        let node = node2(op, acc, rn);
                        bin_rest(toks, j, level, node)
                    },
                }
            },
            None => Ok((acc, i)),
        }
    } else {
        Ok((acc, i))
    }
}

fn parse_unary(toks: &Vec<Token>, i: usize) -> (r: Result<(ExprNode, usize), String>)
    requires
        i <= toks@.len(),
    ensures
        match r {
            Ok((n, j)) => spec_parse_unary(toks_view(*toks), i as int) == Result::<
                (SpecExprNode, int),
                Seq<char>,
            >::Ok((n@, j as int)) && i < j <= toks@.len(),
            Err(e) => spec_parse_unary(toks_view(*toks), i as int) matches Err(m) && m == e@,
        },
    decreases toks@.len() - i, 2int,
{
    let n = toks.len();
    proof {
        if (i as int) < n {
            assert(toks_view(*toks)[i as int] == toks[i as int]@);
        }
    }
    if i < n && matches!(&toks[i], Token::Bang) {
        match parse_unary(toks, i + 1) {
            Err(e) => Err(e),
            Ok((c, j)) => {
                let node = node1(Operator::Not, c);
                Ok((node, j))
            },
        }
    } else if i < n && matches!(&toks[i], Token::Minus) {
        match parse_unary(toks, i + 1) {
            Err(e) => Err(e),
            Ok((c, j)) => {
                let node = node1(Operator::Neg, c);
                Ok((node, j))
            },
        }
    } else {
        parse_primary(toks, i)
    }
}

fn parse_args(toks: &Vec<Token>, i: usize, acc: Vec<ExprNode>) -> (r: Result<
    (Vec<ExprNode>, usize),
    String,
>)
    requires
        i <= toks@.len(),
    ensures
        match r {
            Ok((items, j)) => spec_parse_args(toks_view(*toks), i as int, all_expr_nodes_view(acc))
                == Result::<(Seq<SpecExprNode>, int), Seq<char>>::Ok(
                (all_expr_nodes_view(items), j as int),
            ) && i < j <= toks@.len(),
            Err(e) => spec_parse_args(toks_view(*toks), i as int, all_expr_nodes_view(acc))
                matches Err(m) && m == e@,
        },
    decreases toks@.len() - i, 9int,
{
    let n = toks.len();
    match parse_expr(toks, i) {
        Err(e) => Err(e),
        Ok((node, j)) => {
            proof {
                if (j as int) < n {
                    assert(toks_view(*toks)[j as int] == toks[j as int]@);
                }
            }
            let ghost accg = acc;
            let ghost acc0 = all_expr_nodes_view(acc);
            let ghost nv = node@;
            let mut acc = acc;
            acc.push(node);
            proof {
                lemma_expr_nodes_view(accg, accg@.len() as int);
                lemma_expr_nodes_view(acc, acc@.len() as int);
                assert(acc0.len() + 1 == acc@.len());
                assert(all_expr_nodes_view(acc) =~= acc0.push(nv));
            }
            if j < n && matches!(&toks[j], Token::Comma) {
                parse_args(toks, j + 1, acc)
            } else {
                Ok((acc, j))
            }
        },
    }
}

fn parse_primary(toks: &Vec<Token>, i: usize) -> (r: Result<(ExprNode, usize), String>)
    requires
        i <= toks@.len(),
    ensures
        match r {
            Ok((n, j)) => spec_parse_primary(toks_view(*toks), i as int) == Result::<
                (SpecExprNode, int),
                Seq<char>,
            >::Ok((n@, j as int)) && i < j <= toks@.len(),
            Err(e) => spec_parse_primary(toks_view(*toks), i as int) matches Err(m) && m == e@,
        },
    decreases toks@.len() - i, 1int,
{
    let n = toks.len();
    proof {
        if (i as int) < n {
            assert(toks_view(*toks)[i as int] == toks[i as int]@);
        }
        if i + 1 < n {
            assert(toks_view(*toks)[i + 1] == toks[i + 1 as int]@);
        }
        if i + 2 < n {
            assert(toks_view(*toks)[i + 2] == toks[i + 2 as int]@);
        }
    }
    if i >= n {
        return Err(String::from_str("expected a value"));
    }
    match &toks[i] {
        Token::Int(v) => {
            let node = ExprNode::leaf(Operator::Const(ExprValue::Int(*v)));
            proof {
                assert(node@ =~~= spec_parse_primary(toks_view(*toks), i as int)->Ok_0.0);
            }
            Ok((node, i + 1))
        },
        Token::Text(s) => {
            let node = ExprNode::leaf(Operator::Const(ExprValue::Text(s.clone())));
            proof {
                assert(node@ =~~= spec_parse_primary(toks_view(*toks), i as int)->Ok_0.0);
            }
            Ok((node, i + 1))
        },
        Token::Ident(name) => {
            if crate::text::eq_str(name.as_str(), "true") {
                let node = ExprNode::leaf(Operator::Const(ExprValue::Boolean(true)));
                proof {
                    assert(node@ =~~= spec_parse_primary(toks_view(*toks), i as int)->Ok_0.0);
                }
                Ok((node, i + 1))
            } else if crate::text::eq_str(name.as_str(), "false") {
                let node = ExprNode::leaf(Operator::Const(ExprValue::Boolean(false)));
                proof {
                    assert(node@ =~~= spec_parse_primary(toks_view(*toks), i as int)->Ok_0.0);
                }
                Ok((node, i + 1))
            } else if i + 1 < n && matches!(&toks[i + 1], Token::LParen) {
                if i + 2 < n && matches!(&toks[i + 2], Token::RParen) {
                    let node = node1(
                        Operator::FunctionIdentifier(name.clone()),
                        ExprNode::leaf(Operator::Tuple),
                    );
                    proof {
                        assert(node@ =~~= spec_parse_primary(toks_view(*toks), i as int)->Ok_0.0);
                    }
                    Ok((node, i + 3))
                } else {
                    let empty_acc: Vec<ExprNode> = Vec::new();
                    proof {
                        assert(all_expr_nodes_view(empty_acc) =~= Seq::<SpecExprNode>::empty());
                    }
                    match parse_args(toks, i + 2, empty_acc) {
                        Err(e) => Err(e),
                        Ok((args, j)) => {
                            proof {
                                if (j as int) < n {
                                    assert(toks_view(*toks)[j as int] == toks[j as int]@);
                                }
                            }
                            if j < n && matches!(&toks[j], Token::RParen) {
                                let ghost argsv = all_expr_nodes_view(args);
                                let tuple = ExprNode { operator: Operator::Tuple, children: args };
                                proof {
                                    assert(tuple@.children == argsv);
                                }
                                let node = node1(Operator::FunctionIdentifier(name.clone()), tuple);
                                proof {
                                    assert(node@ =~~= spec_parse_primary(
                                        toks_view(*toks),
                                        i as int,
                                    )->Ok_0.0);
                                }
                                Ok((node, j + 1))
                            } else {
                                Err(String::from_str("expected ) after function arguments"))
                            }
                        },
                    }
                }
            } else {
                let node = ExprNode::leaf(Operator::VariableIdentifierRead(name.clone()));
                proof {
                    assert(node@ =~~= spec_parse_primary(toks_view(*toks), i as int)->Ok_0.0);
                }
                Ok((node, i + 1))
            }
        },
        Token::LParen => {
            match parse_expr(toks, i + 1) {
                Err(e) => Err(e),
                Ok((first, j)) => {
                    proof {
                        if (j as int) < n {
                            assert(toks_view(*toks)[j as int] == toks[j as int]@);
                        }
                    }
                    if j < n && matches!(&toks[j], Token::Comma) {
                        let mut acc: Vec<ExprNode> = Vec::new();
                        let ghost fv = first@;
                        acc.push(first);
                        proof {
                            lemma_expr_nodes_view(acc, acc@.len() as int);
                            assert(all_expr_nodes_view(acc) =~= seq![fv]);
                        }
                        match parse_args(toks, j + 1, acc) {
                            Err(e) => Err(e),
                            Ok((items, k)) => {
                                proof {
                                    if (k as int) < n {
                                        assert(toks_view(*toks)[k as int] == toks[k as int]@);
                                    }
                                }
                                if k < n && matches!(&toks[k], Token::RParen) {
                                    let ghost iv = all_expr_nodes_view(items);
                                    let tuple = ExprNode {
                                        operator: Operator::Tuple,
                                        children: items,
                                    };
                                    proof {
                                        assert(tuple@.children == iv);
                                    }
                                    let node = node1(Operator::RootNode, tuple);
                                    proof {
                                        assert(node@ =~~= spec_parse_primary(
                                            toks_view(*toks),
                                            i as int,
                                        )->Ok_0.0);
                                    }
                                    Ok((node, k + 1))
                                } else {
                                    Err(String::from_str("expected ) after tuple"))
                                }
                            },
                        }
                    } else if j < n && matches!(&toks[j], Token::Semi) {
                        let mut acc: Vec<ExprNode> = Vec::new();
                        let ghost fv = first@;
                        acc.push(first);
                        proof {
                            lemma_expr_nodes_view(acc, acc@.len() as int);
                            assert(all_expr_nodes_view(acc) =~= seq![fv]);
                        }
                        match chain_items(toks, j, acc) {
                            Err(e) => Err(e),
                            Ok((items, k)) => {
                                proof {
                                    if (k as int) < n {
                                        assert(toks_view(*toks)[k as int] == toks[k as int]@);
                                    }
                                }
                                if k < n && matches!(&toks[k], Token::RParen) {
                                    let ghost iv = all_expr_nodes_view(items);
                                    let chain = ExprNode {
                                        operator: Operator::Chain,
                                        children: items,
                                    };
                                    proof {
                                        assert(chain@.children == iv);
                                    }
                                    let node = node1(Operator::RootNode, chain);
                                    proof {
                                        assert(node@ =~~= spec_parse_primary(
                                            toks_view(*toks),
                                            i as int,
                                        )->Ok_0.0);
                                    }
                                    Ok((node, k + 1))
                                } else {
                                    Err(String::from_str("expected ) after chain"))
                                }
                            },
                        }
                    } else if j < n && matches!(&toks[j], Token::RParen) {
                        let node = node1(Operator::RootNode, first);
                        proof {
                            assert(node@ =~~= spec_parse_primary(toks_view(*toks), i as int)->Ok_0.0);
                        }
                        Ok((node, j + 1))
                    } else {
                        Err(String::from_str("expected ) after group"))
                    }
                },
            }
        },
        _ => Err(String::from_str("expected a value")),
    }
}

/// Parses one expression of the restricted operator set into its operator
/// tree, or reports the first syntax error.
pub fn build_operator_tree(source: &str) -> (r: Result<ExprNode, String>)
    ensures
        match r {
            Ok(node) => spec_build(source@) == Result::<SpecExprNode, Seq<char>>::Ok(node@),
            Err(e) => spec_build(source@) matches Err(m) && m == e@,
        },
{
    let chars = crate::text::str_to_chars(source);
    match tokenize(&chars) {
        Err(e) => Err(e),
        Ok(toks) => {
            proof {
                assert(toks_view(toks).len() == toks@.len());
            }
            if toks.len() == 0 {
                let node = ExprNode::leaf(Operator::RootNode);
                proof {
                    assert(node@ =~~= (SpecExprNode {
                        operator: SpecOperator::RootNode,
                        children: Seq::empty(),
                    }));
                }
                Ok(node)
            } else {
                match parse_chain(&toks, 0) {
                    Err(e) => Err(e),
                    Ok((n, j)) => {
                        if j == toks.len() {
                            let node = node1(Operator::RootNode, n);
                            Ok(node)
                        } else {
                            Err(String::from_str("unexpected token after expression"))
                        }
                    },
                }
            }
        },
    }
}

} // verus!

verus! {

/// The first index holding `name` in a variable context, or -1.
pub open spec fn spec_ctx_idx(ctx: Seq<(Seq<char>, SpecExprValue)>, name: Seq<char>) -> int
    decreases ctx.len(),
{
    if ctx.len() == 0 {
        -1
    } else if ctx[0].0 == name {
        0
    } else {
        let r = spec_ctx_idx(ctx.drop_first(), name);
        if r < 0 {
            -1
        } else {
            r + 1
        }
    }
}

pub proof fn lemma_ctx_idx(ctx: Seq<(Seq<char>, SpecExprValue)>, name: Seq<char>)
    ensures
        spec_ctx_idx(ctx, name) >= 0 ==> 0 <= spec_ctx_idx(ctx, name) < ctx.len() && ctx[
            spec_ctx_idx(ctx, name)
        ].0 == name,
        spec_ctx_idx(ctx, name) >= 0 ==> forall|k: int|
            0 <= k < spec_ctx_idx(ctx, name) ==> ctx[k].0 != name,
        spec_ctx_idx(ctx, name) < 0 ==> forall|k: int| 0 <= k < ctx.len() ==> ctx[k].0 != name,
    decreases ctx.len(),
{
    if ctx.len() > 0 && ctx[0].0 != name {
        let t = ctx.drop_first();
        lemma_ctx_idx(t, name);
        assert(forall|k: int| 1 <= k < ctx.len() ==> #[trigger] ctx[k] == t[k - 1]);
    }
}

/// The value bound to `name`, taking the earliest binding.
pub open spec fn spec_ctx_get(ctx: Seq<(Seq<char>, SpecExprValue)>, name: Seq<char>) -> Option<
    SpecExprValue,
> {
    let i = spec_ctx_idx(ctx, name);
    if i < 0 {
        None
    } else {
        Some(ctx[i].1)
    }
}

/// The context with `name` bound to `v`: the earliest binding is replaced, or
/// a new one appended.
pub open spec fn spec_ctx_set(
    ctx: Seq<(Seq<char>, SpecExprValue)>,
    name: Seq<char>,
    v: SpecExprValue,
) -> Seq<(Seq<char>, SpecExprValue)> {
    let i = spec_ctx_idx(ctx, name);
    if i < 0 {
        ctx.push((name, v))
    } else {
        ctx.update(i, (name, v))
    }
}

/// The view of a variable context.
pub open spec fn ctx_view(v: Vec<(String, ExprValue)>) -> Seq<(Seq<char>, SpecExprValue)> {
    v@.map_values(|p: (String, ExprValue)| (p.0@, p.1@))
}

/// Looks a variable up in the context.
fn ctx_get(ctx: &Vec<(String, ExprValue)>, name: &str) -> (r: Option<ExprValue>)
    ensures
        match r {
            Some(v) => spec_ctx_get(ctx_view(*ctx), name@) == Some(v@),
            None => spec_ctx_get(ctx_view(*ctx), name@) is None,
        },
{
    proof {
        lemma_ctx_idx(ctx_view(*ctx), name@);
    }
    let n = ctx.len();
    let mut i: usize = 0;
    while i < n
        invariant
            0 <= i <= n == ctx@.len(),
            forall|k: int| 0 <= k < i ==> ctx_view(*ctx)[k].0 != name@,
            spec_ctx_idx(ctx_view(*ctx), name@) >= 0 ==> 0 <= spec_ctx_idx(ctx_view(*ctx), name@)
                < n && ctx_view(*ctx)[spec_ctx_idx(ctx_view(*ctx), name@)].0 == name@,
            spec_ctx_idx(ctx_view(*ctx), name@) >= 0 ==> forall|k: int|
                0 <= k < spec_ctx_idx(ctx_view(*ctx), name@) ==> ctx_view(*ctx)[k].0 != name@,
            spec_ctx_idx(ctx_view(*ctx), name@) < 0 ==> forall|k: int|
                0 <= k < n ==> ctx_view(*ctx)[k].0 != name@,
        decreases n - i,
    {
        proof {
            assert(ctx_view(*ctx)[i as int] == (ctx@[i as int].0@, ctx@[i as int].1@));
        }
        if crate::text::eq_str(ctx[i].0.as_str(), name) {
            let v = clone_value(&ctx[i].1);
            proof {
                assert(spec_ctx_idx(ctx_view(*ctx), name@) == i as int);
            }
            return Some(v);
        }
        i += 1;
    }
    None
}

/// Copies a value.
fn clone_value(v: &ExprValue) -> (r: ExprValue)
    ensures
        r@ == v@,
{
    match v {
        ExprValue::Int(x) => ExprValue::Int(*x),
        ExprValue::Boolean(b) => ExprValue::Boolean(*b),
        ExprValue::Text(s) => ExprValue::Text(s.clone()),
        ExprValue::Unit => ExprValue::Unit,
    }
}

/// The position of the earliest binding of `name`, if any.
fn ctx_find(ctx: &Vec<(String, ExprValue)>, name: &str) -> (r: Option<usize>)
    ensures
        match r {
            Some(i) => spec_ctx_idx(ctx_view(*ctx), name@) == i as int && i < ctx@.len(),
            None => spec_ctx_idx(ctx_view(*ctx), name@) < 0,
        },
{
    proof {
        lemma_ctx_idx(ctx_view(*ctx), name@);
    }
    let n = ctx.len();
    let mut i: usize = 0;
    while i < n
        invariant
            0 <= i <= n == ctx@.len(),
            forall|k: int| 0 <= k < i ==> ctx_view(*ctx)[k].0 != name@,
            spec_ctx_idx(ctx_view(*ctx), name@) >= 0 ==> 0 <= spec_ctx_idx(ctx_view(*ctx), name@)
                < n && ctx_view(*ctx)[spec_ctx_idx(ctx_view(*ctx), name@)].0 == name@,
            spec_ctx_idx(ctx_view(*ctx), name@) >= 0 ==> forall|k: int|
                0 <= k < spec_ctx_idx(ctx_view(*ctx), name@) ==> ctx_view(*ctx)[k].0 != name@,
            spec_ctx_idx(ctx_view(*ctx), name@) < 0 ==> forall|k: int|
                0 <= k < n ==> ctx_view(*ctx)[k].0 != name@,
        decreases n - i,
    {
        proof {
            assert(ctx_view(*ctx)[i as int] == (ctx@[i as int].0@, ctx@[i as int].1@));
        }
        if crate::text::eq_str(ctx[i].0.as_str(), name) {
            proof {
                assert(spec_ctx_idx(ctx_view(*ctx), name@) == i as int);
            }
            return Some(i);
        }
        i += 1;
    }
    None
}

/// Binds `name` to `v` in the context.
fn ctx_set(ctx: Vec<(String, ExprValue)>, name: &str, v: ExprValue) -> (r: Vec<
    (String, ExprValue),
>)
    ensures
        ctx_view(r) == spec_ctx_set(ctx_view(ctx), name@, v@),
{
    let mut out = ctx;
    match ctx_find(&out, name) {
        Some(i) => {
            let ghost before = out;
            out.set(i, (String::from_str(name), v));
            proof {
                assert(ctx_view(out) =~= spec_ctx_set(ctx_view(before), name@, v@));
            }
            out
        },
        None => {
            let ghost before = out;
            out.push((String::from_str(name), v));
            proof {
                assert(ctx_view(out) =~= spec_ctx_set(ctx_view(before), name@, v@));
            }
            out
        },
    }
}

/// What evaluating one node yields: the value and the updated context, or the
/// first evaluation error. Boolean `&&` and `||` short-circuit; arithmetic
/// that overflows, an unknown name, and every construct outside the closed
/// operator set are reported errors.
pub open spec fn spec_eval(n: SpecExprNode, ctx: Seq<(Seq<char>, SpecExprValue)>) -> Result<
    (SpecExprValue, Seq<(Seq<char>, SpecExprValue)>),
    Seq<char>,
>
    decreases n, 2int,
{
    match n.operator {
        SpecOperator::RootNode => {
            if n.children.len() == 0 {
                Ok((SpecExprValue::Unit, ctx))
            } else if n.children.len() == 1 {
                spec_eval(n.children[0], ctx)
            } else {
                Err("malformed expression tree"@)
            }
        },
        SpecOperator::Chain => spec_eval_chain(n.children, ctx),
        SpecOperator::Const(v) => Ok((v, ctx)),
        SpecOperator::VariableIdentifierRead(name) => match spec_ctx_get(ctx, name) {
            Some(v) => Ok((v, ctx)),
            None => Err("unknown variable: "@ + name),
        },
        SpecOperator::VariableIdentifierWrite(_) => Err("assignment target cannot be read"@),
        SpecOperator::Assign => {
            if n.children.len() == 2 && n.children[0].operator is VariableIdentifierWrite {
                let name = n.children[0].operator->VariableIdentifierWrite_0;
                match spec_eval(n.children[1], ctx) {
                    Err(e) => Err(e),
                    Ok((v, ctx2)) => Ok((SpecExprValue::Unit, spec_ctx_set(ctx2, name, v))),
                }
            } else {
                Err("malformed assignment"@)
            }
        },
        SpecOperator::Not => {
            if n.children.len() == 1 {
                match spec_eval(n.children[0], ctx) {
                    Err(e) => Err(e),
                    Ok((v, ctx2)) => match v {
                        SpecExprValue::Boolean(b) => Ok((SpecExprValue::Boolean(!b), ctx2)),
                        _ => Err("expected a boolean operand"@),
                    },
                }
            } else {
                Err("malformed expression tree"@)
            }
        },
        SpecOperator::Neg => {
            if n.children.len() == 1 {
                match spec_eval(n.children[0], ctx) {
                    Err(e) => Err(e),
                    Ok((v, ctx2)) => match v {
                        SpecExprValue::Int(x) => if x == i64::MIN {
                            Err("arithmetic overflow in expression"@)
                        } else {
                            Ok((SpecExprValue::Int(-x), ctx2))
                        },
                        _ => Err("expected an integer operand"@),
                    },
                }
            } else {
                Err("malformed expression tree"@)
            }
        },
        SpecOperator::And => {
            if n.children.len() == 2 {
                match spec_eval(n.children[0], ctx) {
                    Err(e) => Err(e),
                    Ok((v, ctx2)) => match v {
                        SpecExprValue::Boolean(b) => if !b {
                            Ok((SpecExprValue::Boolean(false), ctx2))
                        } else {
                            match spec_eval(n.children[1], ctx2) {
                                Err(e) => Err(e),
                                Ok((v2, ctx3)) => match v2 {
                                    SpecExprValue::Boolean(b2) => Ok(
                                        (SpecExprValue::Boolean(b2), ctx3),
                                    ),
                                    _ => Err("expected a boolean operand"@),
                                },
                            }
                        },
                        _ => Err("expected a boolean operand"@),
                    },
                }
            } else {
                Err("malformed expression tree"@)
            }
        },
        SpecOperator::Or => {
            if n.children.len() == 2 {
                match spec_eval(n.children[0], ctx) {
                    Err(e) => Err(e),
                    Ok((v, ctx2)) => match v {
                        SpecExprValue::Boolean(b) => if b {
                            Ok((SpecExprValue::Boolean(true), ctx2))
                        } else {
                            match spec_eval(n.children[1], ctx2) {
                                Err(e) => Err(e),
                                Ok((v2, ctx3)) => match v2 {
                                    SpecExprValue::Boolean(b2) => Ok(
                                        (SpecExprValue::Boolean(b2), ctx3),
                                    ),
                                    _ => Err("expected a boolean operand"@),
                                },
                            }
                        },
                        _ => Err("expected a boolean operand"@),
                    },
                }
            } else {
                Err("malformed expression tree"@)
            }
        },
        SpecOperator::Eq => spec_eval_equality(n, ctx, true),
        SpecOperator::Neq => spec_eval_equality(n, ctx, false),
        SpecOperator::Gt => spec_eval_compare(n, ctx, 0),
        SpecOperator::Lt => spec_eval_compare(n, ctx, 1),
        SpecOperator::Geq => spec_eval_compare(n, ctx, 2),
        SpecOperator::Leq => spec_eval_compare(n, ctx, 3),
        SpecOperator::Add => spec_eval_arith(n, ctx, 0),
        SpecOperator::Sub => spec_eval_arith(n, ctx, 1),
        SpecOperator::Mul => spec_eval_arith(n, ctx, 2),
        SpecOperator::Div => spec_eval_arith(n, ctx, 3),
        SpecOperator::Mod => spec_eval_arith(n, ctx, 4),
        SpecOperator::Tuple => Err("tuple cannot be evaluated here"@),
        SpecOperator::FunctionIdentifier(name) => {
            if n.children.len() == 1 && n.children[0].operator is Tuple {
                if name == "is_empty"@ {
                    if n.children[0].children.len() == 1 {
                        match spec_eval(n.children[0].children[0], ctx) {
                            Err(e) => Err(e),
                            Ok((v, ctx2)) => match v {
                                SpecExprValue::Text(t) => Ok(
                                    (SpecExprValue::Boolean(t.len() == 0), ctx2),
                                ),
                                _ => Err("is_empty expects text"@),
                            },
                        }
                    } else {
                        Err("is_empty expects one argument"@)
                    }
                } else {
                    Err("unknown function: "@ + name)
                }
            } else {
                Err("malformed expression tree"@)
            }
        },
    }
}

/// Evaluates the statements of a chain in order; the last value wins.
pub open spec fn spec_eval_chain(
    cs: Seq<SpecExprNode>,
    ctx: Seq<(Seq<char>, SpecExprValue)>,
) -> Result<(SpecExprValue, Seq<(Seq<char>, SpecExprValue)>), Seq<char>>
    decreases cs, 1int,
{
    if cs.len() == 0 {
        Ok((SpecExprValue::Unit, ctx))
    } else {
        match spec_eval(cs[0], ctx) {
            Err(e) => Err(e),
            Ok((v, ctx2)) => if cs.len() == 1 {
                Ok((v, ctx2))
            } else {
                spec_eval_chain(cs.drop_first(), ctx2)
            },
        }
    }
}

/// Equality and inequality over like values; unlike kinds compare unequal.
pub open spec fn spec_eval_equality(
    n: SpecExprNode,
    ctx: Seq<(Seq<char>, SpecExprValue)>,
    positive: bool,
) -> Result<(SpecExprValue, Seq<(Seq<char>, SpecExprValue)>), Seq<char>>
    decreases n, 1int,
{
    if n.children.len() == 2 {
        match spec_eval(n.children[0], ctx) {
            Err(e) => Err(e),
            Ok((a, ctx2)) => match spec_eval(n.children[1], ctx2) {
                Err(e) => Err(e),
                Ok((b, ctx3)) => {
                    let eq = a == b;
                    Ok((SpecExprValue::Boolean(eq == positive), ctx3))
                },
            },
        }
    } else {
        Err("malformed expression tree"@)
    }
}

/// Integer comparison: 0 `>`, 1 `<`, 2 `>=`, 3 `<=`.
pub open spec fn spec_eval_compare(
    n: SpecExprNode,
    ctx: Seq<(Seq<char>, SpecExprValue)>,
    which: int,
) -> Result<(SpecExprValue, Seq<(Seq<char>, SpecExprValue)>), Seq<char>>
    decreases n, 1int,
{
    if n.children.len() == 2 {
        match spec_eval(n.children[0], ctx) {
            Err(e) => Err(e),
            Ok((a, ctx2)) => match spec_eval(n.children[1], ctx2) {
                Err(e) => Err(e),
                Ok((b, ctx3)) => match (a, b) {
                    (SpecExprValue::Int(x), SpecExprValue::Int(y)) => {
                        let c = if which == 0 {
                            x > y
                        } else if which == 1 {
                            x < y
                        } else if which == 2 {
                            x >= y
                        } else {
                            x <= y
                        };
                        Ok((SpecExprValue::Boolean(c), ctx3))
                    },
                    _ => Err("expected an integer operand"@),
                },
            },
        }
    } else {
        Err("malformed expression tree"@)
    }
}

/// Integer arithmetic with overflow as a reported error: 0 `+`, 1 `-`, 2 `*`,
/// 3 `/`, 4 `%`.
pub open spec fn spec_eval_arith(
    n: SpecExprNode,
    ctx: Seq<(Seq<char>, SpecExprValue)>,
    which: int,
) -> Result<(SpecExprValue, Seq<(Seq<char>, SpecExprValue)>), Seq<char>>
    decreases n, 1int,
{
    if n.children.len() == 2 {
        match spec_eval(n.children[0], ctx) {
            Err(e) => Err(e),
            Ok((a, ctx2)) => match spec_eval(n.children[1], ctx2) {
                Err(e) => Err(e),
                Ok((b, ctx3)) => match (a, b) {
                    (SpecExprValue::Int(x), SpecExprValue::Int(y)) => {
                        let r = if which == 0 {
                            i64::checked_add(x as i64, y as i64)
                        } else if which == 1 {
                            i64::checked_sub(x as i64, y as i64)
                        } else if which == 2 {
                            i64::checked_mul(x as i64, y as i64)
                        } else if which == 3 {
                            i64::checked_div(x as i64, y as i64)
                        } else {
                            i64::checked_rem(x as i64, y as i64)
                        };
                        match r {
                            Some(v) => Ok((SpecExprValue::Int(v as int), ctx3)),
                            None => Err("arithmetic error in expression"@),
                        }
                    },
                    _ => Err("expected an integer operand"@),
                },
            },
        }
    } else {
        Err("malformed expression tree"@)
    }
}

} // verus!

verus! {

/// Evaluates one node against a variable context.
pub fn eval(n: &ExprNode, ctx: Vec<(String, ExprValue)>) -> (r: Result<
    (ExprValue, Vec<(String, ExprValue)>),
    String,
>)
    ensures
        match r {
            Ok((v, c)) => spec_eval(n@, ctx_view(ctx)) == Result::<
                (SpecExprValue, Seq<(Seq<char>, SpecExprValue)>),
                Seq<char>,
            >::Ok((v@, ctx_view(c))),
            Err(e) => spec_eval(n@, ctx_view(ctx)) matches Err(m) && m == e@,
        },
    decreases *n, 2int,
{
    proof {
        lemma_expr_nodes_view(n.children, n.children@.len() as int);
    }
    match &n.operator {
        Operator::RootNode => {
            if n.children.len() == 0 {
                Ok((ExprValue::Unit, ctx))
            } else if n.children.len() == 1 {
                eval(&n.children[0], ctx)
            } else {
                Err(String::from_str("malformed expression tree"))
            }
        },
        Operator::Chain => eval_chain(&n.children, ctx),
        Operator::Const(v) => Ok((clone_value(v), ctx)),
        Operator::VariableIdentifierRead(name) => match ctx_get(&ctx, name.as_str()) {
            Some(v) => Ok((v, ctx)),
            None => {
                let mut m = String::from_str("unknown variable: ");
                m.append(name.as_str());
                Err(m)
            },
        },
        Operator::VariableIdentifierWrite(_) => Err(
            String::from_str("assignment target cannot be read"),
        ),
        Operator::Assign => {
            if n.children.len() == 2 && matches!(
                &n.children[0].operator,
                Operator::VariableIdentifierWrite(_),
            ) {
                let name = match &n.children[0].operator {
                    Operator::VariableIdentifierWrite(s) => s.clone(),
                    _ => String::new(),
                };
                proof {
                    assert(n@.children[0].operator == n.children[0 as int].operator@);
                }
                match eval(&n.children[1], ctx) {
                    Err(e) => Err(e),
                    Ok((v, ctx2)) => {
                        let ctx3 = ctx_set(ctx2, name.as_str(), v);
                        Ok((ExprValue::Unit, ctx3))
                    },
                }
            } else {
                Err(String::from_str("malformed assignment"))
            }
        },
        Operator::Not => {
            if n.children.len() == 1 {
                match eval(&n.children[0], ctx) {
                    Err(e) => Err(e),
                    Ok((v, ctx2)) => match v {
                        ExprValue::Boolean(b) => Ok((ExprValue::Boolean(!b), ctx2)),
                        _ => Err(String::from_str("expected a boolean operand")),
                    },
                }
            } else {
                Err(String::from_str("malformed expression tree"))
            }
        },
        Operator::Neg => {
            if n.children.len() == 1 {
                match eval(&n.children[0], ctx) {
                    Err(e) => Err(e),
                    Ok((v, ctx2)) => match v {
                        ExprValue::Int(x) => {
                            if x == i64::MIN {
                                Err(String::from_str("arithmetic overflow in expression"))
                            } else {
                                Ok((ExprValue::Int(-x), ctx2))
                            }
                        },
                        _ => Err(String::from_str("expected an integer operand")),
                    },
                }
            } else {
                Err(String::from_str("malformed expression tree"))
            }
        },
        Operator::And => {
            if n.children.len() == 2 {
                match eval(&n.children[0], ctx) {
                    Err(e) => Err(e),
                    Ok((v, ctx2)) => match v {
                        ExprValue::Boolean(b) => {
                            if !b {
                                Ok((ExprValue::Boolean(false), ctx2))
                            } else {
                                match eval(&n.children[1], ctx2) {
                                    Err(e) => Err(e),
                                    Ok((v2, ctx3)) => match v2 {
                                        ExprValue::Boolean(b2) => Ok(
                                            (ExprValue::Boolean(b2), ctx3),
                                        ),
                                        _ => Err(String::from_str("expected a boolean operand")),
                                    },
                                }
                            }
                        },
                        _ => Err(String::from_str("expected a boolean operand")),
                    },
                }
            } else {
                Err(String::from_str("malformed expression tree"))
            }
        },
        Operator::Or => {
            if n.children.len() == 2 {
                match eval(&n.children[0], ctx) {
                    Err(e) => Err(e),
                    Ok((v, ctx2)) => match v {
                        ExprValue::Boolean(b) => {
                            if b {
                                Ok((ExprValue::Boolean(true), ctx2))
                            } else {
                                match eval(&n.children[1], ctx2) {
                                    Err(e) => Err(e),
                                    Ok((v2, ctx3)) => match v2 {
                                        ExprValue::Boolean(b2) => Ok(
                                            (ExprValue::Boolean(b2), ctx3),
                                        ),
                                        _ => Err(String::from_str("expected a boolean operand")),
                                    },
                                }
                            }
                        },
                        _ => Err(String::from_str("expected a boolean operand")),
                    },
                }
            } else {
                Err(String::from_str("malformed expression tree"))
            }
        },
        Operator::Eq => eval_equality(n, ctx, true),
        Operator::Neq => eval_equality(n, ctx, false),
        Operator::Gt => eval_compare(n, ctx, 0),
        Operator::Lt => eval_compare(n, ctx, 1),
        Operator::Geq => eval_compare(n, ctx, 2),
        Operator::Leq => eval_compare(n, ctx, 3),
        Operator::Add => eval_arith(n, ctx, 0),
        Operator::Sub => eval_arith(n, ctx, 1),
        Operator::Mul => eval_arith(n, ctx, 2),
        Operator::Div => eval_arith(n, ctx, 3),
        Operator::Mod => eval_arith(n, ctx, 4),
        Operator::Tuple => Err(String::from_str("tuple cannot be evaluated here")),
        Operator::FunctionIdentifier(name) => {
            if n.children.len() == 1 && matches!(&n.children[0].operator, Operator::Tuple) {
                proof {
                    assert(n@.children[0].operator == n.children[0 as int].operator@);
                    lemma_expr_nodes_view(
                        n.children[0].children,
                        n.children[0].children@.len() as int,
                    );
                }
                if crate::text::eq_str(name.as_str(), "is_empty") {
                    if n.children[0].children.len() == 1 {
                        match eval(&n.children[0].children[0], ctx) {
                            Err(e) => Err(e),
                            Ok((v, ctx2)) => match v {
                                ExprValue::Text(t) => Ok(
                                    (ExprValue::Boolean(t.as_str().unicode_len() == 0), ctx2),
                                ),
                                _ => Err(String::from_str("is_empty expects text")),
                            },
                        }
                    } else {
                        Err(String::from_str("is_empty expects one argument"))
                    }
                } else {
                    let mut m = String::from_str("unknown function: ");
                    m.append(name.as_str());
                    Err(m)
                }
            } else {
                Err(String::from_str("malformed expression tree"))
            }
        },
    }
}

/// Evaluates the statements of a chain in order.
fn eval_chain(cs: &Vec<ExprNode>, ctx: Vec<(String, ExprValue)>) -> (r: Result<
    (ExprValue, Vec<(String, ExprValue)>),
    String,
>)
    ensures
        match r {
            Ok((v, c)) => spec_eval_chain(all_expr_nodes_view(*cs), ctx_view(ctx)) == Result::<
                (SpecExprValue, Seq<(Seq<char>, SpecExprValue)>),
                Seq<char>,
            >::Ok((v@, ctx_view(c))),
            Err(e) => spec_eval_chain(all_expr_nodes_view(*cs), ctx_view(ctx)) matches Err(m) && m
                == e@,
        },
    decreases *cs, 1int, cs@.len() + 1,
{
    proof {
        assert(all_expr_nodes_view(*cs).skip(0) =~= all_expr_nodes_view(*cs));
    }
    eval_chain_from(cs, 0, ctx)
}

/// Evaluates the chain's statements from position `i` on.
fn eval_chain_from(cs: &Vec<ExprNode>, i: usize, ctx: Vec<(String, ExprValue)>) -> (r: Result<
    (ExprValue, Vec<(String, ExprValue)>),
    String,
>)
    requires
        i <= cs@.len(),
    ensures
        match r {
            Ok((v, c)) => spec_eval_chain(all_expr_nodes_view(*cs).skip(i as int), ctx_view(ctx))
                == Result::<(SpecExprValue, Seq<(Seq<char>, SpecExprValue)>), Seq<char>>::Ok(
                (v@, ctx_view(c)),
            ),
            Err(e) => spec_eval_chain(all_expr_nodes_view(*cs).skip(i as int), ctx_view(ctx))
                matches Err(m) && m == e@,
        },
    decreases *cs, 1int, cs@.len() - i,
{
    let n = cs.len();
    let ghost csv = all_expr_nodes_view(*cs);
    proof {
        lemma_expr_nodes_view(*cs, cs@.len() as int);
        if (i as int) < csv.len() {
            assert(csv.skip(i as int)[0] == csv[i as int]);
            assert(csv.skip(i as int).drop_first() =~= csv.skip(i + 1));
        }
    }
    if i == n {
        Ok((ExprValue::Unit, ctx))
    } else {
        match eval(&cs[i], ctx) {
            Err(e) => Err(e),
            Ok((v, ctx2)) => {
                if i + 1 == n {
                    Ok((v, ctx2))
                } else {
                    eval_chain_from(cs, i + 1, ctx2)
                }
            },
        }
    }
}

/// Equality and inequality over like values.
fn eval_equality(n: &ExprNode, ctx: Vec<(String, ExprValue)>, positive: bool) -> (r: Result<
    (ExprValue, Vec<(String, ExprValue)>),
    String,
>)
    ensures
        match r {
            Ok((v, c)) => spec_eval_equality(n@, ctx_view(ctx), positive) == Result::<
                (SpecExprValue, Seq<(Seq<char>, SpecExprValue)>),
                Seq<char>,
            >::Ok((v@, ctx_view(c))),
            Err(e) => spec_eval_equality(n@, ctx_view(ctx), positive) matches Err(m) && m == e@,
        },
    decreases *n, 1int, 0int,
{
    proof {
        lemma_expr_nodes_view(n.children, n.children@.len() as int);
    }
    if n.children.len() == 2 {
        match eval(&n.children[0], ctx) {
            Err(e) => Err(e),
            Ok((a, ctx2)) => match eval(&n.children[1], ctx2) {
                Err(e) => Err(e),
                Ok((b, ctx3)) => {
                    let eq = eq_value(&a, &b);
                    Ok((ExprValue::Boolean(eq == positive), ctx3))
                },
            },
        }
    } else {
        Err(String::from_str("malformed expression tree"))
    }
}

/// Whether two values are equal; values of unlike kinds are unequal.
fn eq_value(a: &ExprValue, b: &ExprValue) -> (r: bool)
    ensures
        r == (a@ == b@),
{
    match (a, b) {
        (ExprValue::Int(x), ExprValue::Int(y)) => x == y,
        (ExprValue::Boolean(x), ExprValue::Boolean(y)) => x == y,
        (ExprValue::Text(x), ExprValue::Text(y)) => crate::text::eq_str(x.as_str(), y.as_str()),
        (ExprValue::Unit, ExprValue::Unit) => true,
        _ => false,
    }
}

/// Integer comparison.
fn eval_compare(n: &ExprNode, ctx: Vec<(String, ExprValue)>, which: usize) -> (r: Result<
    (ExprValue, Vec<(String, ExprValue)>),
    String,
>)
    requires
        which <= 3,
    ensures
        match r {
            Ok((v, c)) => spec_eval_compare(n@, ctx_view(ctx), which as int) == Result::<
                (SpecExprValue, Seq<(Seq<char>, SpecExprValue)>),
                Seq<char>,
            >::Ok((v@, ctx_view(c))),
            Err(e) => spec_eval_compare(n@, ctx_view(ctx), which as int) matches Err(m) && m == e@,
        },
    decreases *n, 1int, 0int,
{
    proof {
        lemma_expr_nodes_view(n.children, n.children@.len() as int);
    }
    if n.children.len() == 2 {
        match eval(&n.children[0], ctx) {
            Err(e) => Err(e),
            Ok((a, ctx2)) => match eval(&n.children[1], ctx2) {
                Err(e) => Err(e),
                Ok((b, ctx3)) => match (a, b) {
                    (ExprValue::Int(x), ExprValue::Int(y)) => {
                        let c = if which == 0 {
                            x > y
                        } else if which == 1 {
                            x < y
                        } else if which == 2 {
                            x >= y
                        } else {
                            x <= y
                        };
                        Ok((ExprValue::Boolean(c), ctx3))
                    },
                    _ => Err(String::from_str("expected an integer operand")),
                },
            },
        }
    } else {
        Err(String::from_str("malformed expression tree"))
    }
}

/// Integer arithmetic; overflow and division by zero are reported errors.
fn eval_arith(n: &ExprNode, ctx: Vec<(String, ExprValue)>, which: usize) -> (r: Result<
    (ExprValue, Vec<(String, ExprValue)>),
    String,
>)
    requires
        which <= 4,
    ensures
        match r {
            Ok((v, c)) => spec_eval_arith(n@, ctx_view(ctx), which as int) == Result::<
                (SpecExprValue, Seq<(Seq<char>, SpecExprValue)>),
                Seq<char>,
            >::Ok((v@, ctx_view(c))),
            Err(e) => spec_eval_arith(n@, ctx_view(ctx), which as int) matches Err(m) && m == e@,
        },
    decreases *n, 1int, 0int,
{
    proof {
        lemma_expr_nodes_view(n.children, n.children@.len() as int);
    }
    if n.children.len() == 2 {
        match eval(&n.children[0], ctx) {
            Err(e) => Err(e),
            Ok((a, ctx2)) => match eval(&n.children[1], ctx2) {
                Err(e) => Err(e),
                Ok((b, ctx3)) => match (a, b) {
                    (ExprValue::Int(x), ExprValue::Int(y)) => {
                        let res = if which == 0 {
                            x.checked_add(y)
                        } else if which == 1 {
                            x.checked_sub(y)
                        } else if which == 2 {
                            x.checked_mul(y)
                        } else if which == 3 {
                            x.checked_div(y)
                        } else {
                            x.checked_rem(y)
                        };
                        match res {
                            Some(v) => Ok((ExprValue::Int(v), ctx3)),
                            None => Err(String::from_str("arithmetic error in expression")),
                        }
                    },
                    _ => Err(String::from_str("expected an integer operand")),
                },
            },
        }
    } else {
        Err(String::from_str("malformed expression tree"))
    }
}

/// Parses and evaluates one expression against a variable context, handing
/// back the possibly-updated context.
pub fn eval_with_context(source: &str, ctx: Vec<(String, ExprValue)>) -> (r: (
    Result<ExprValue, String>,
    Vec<(String, ExprValue)>,
))
    ensures
        match spec_build(source@) {
            Err(m) => r.0 matches Err(e) && e@ == m && ctx_view(r.1) == ctx_view(ctx),
            Ok(node) => match spec_eval(node, ctx_view(ctx)) {
                Ok((v, c)) => r.0 matches Ok(rv) && rv@ == v && ctx_view(r.1) == c,
                Err(m) => r.0 matches Err(e) && e@ == m && ctx_view(r.1) == ctx_view(ctx),
            },
        },
{
    match build_operator_tree(source) {
        Err(e) => (Err(e), ctx),
        Ok(node) => {
            let ghost ctx0 = ctx_view(ctx);
            let snapshot = clone_ctx(&ctx);
            proof {
                assert(ctx_view(snapshot) =~~= ctx0);
            }
            match eval(&node, ctx) {
                Ok((v, c)) => (Ok(v), c),
                Err(e) => (Err(e), snapshot),
            }
        },
    }
}

/// Copies a variable context.
fn clone_ctx(ctx: &Vec<(String, ExprValue)>) -> (r: Vec<(String, ExprValue)>)
    ensures
        ctx_view(r) == ctx_view(*ctx),
{
    let mut r: Vec<(String, ExprValue)> = Vec::new();
    let n = ctx.len();
    let mut i: usize = 0;
    while i < n
        invariant
            0 <= i <= n == ctx@.len(),
            r@.len() == i,
            forall|k: int| 0 <= k < i ==> ctx_view(r)[k] == ctx_view(*ctx)[k],
        decreases n - i,
    {
        r.push((ctx[i].0.clone(), clone_value(&ctx[i].1)));
        proof {
            assert(ctx_view(r)[i as int] == ctx_view(*ctx)[i as int]);
        }
        i += 1;
    }
    proof {
        assert(ctx_view(r) =~= ctx_view(*ctx));
    }
    r
}

} // verus!

verus! {

/// The text a value renders as in generated code; text is quoted.
pub open spec fn spec_value_text(v: SpecExprValue) -> Seq<char> {
    match v {
        SpecExprValue::Int(x) => crate::text::spec_i64_str(x),
        SpecExprValue::Boolean(b) => if b {
            "true"@
        } else {
            "false"@
        },
        SpecExprValue::Text(s) => seq!['"'] + s + seq!['"'],
        SpecExprValue::Unit => "()"@,
    }
}

/// The text an operator renders as in generated code.
pub open spec fn spec_op_text(op: SpecOperator) -> Seq<char> {
    match op {
        SpecOperator::RootNode => Seq::empty(),
        SpecOperator::Add => "+"@,
        SpecOperator::Sub => "-"@,
        SpecOperator::Mul => "*"@,
        SpecOperator::Div => "/"@,
        SpecOperator::Mod => "%"@,
        SpecOperator::Eq => "=="@,
        SpecOperator::Neq => "!="@,
        SpecOperator::Gt => ">"@,
        SpecOperator::Lt => "<"@,
        SpecOperator::Geq => ">="@,
        SpecOperator::Leq => "<="@,
        SpecOperator::And => "&&"@,
        SpecOperator::Or => "||"@,
        SpecOperator::Not => "!"@,
        SpecOperator::Neg => "-"@,
        SpecOperator::Assign => "="@,
        SpecOperator::Chain => ";"@,
        SpecOperator::Tuple => ","@,
        SpecOperator::Const(v) => spec_value_text(v),
        SpecOperator::VariableIdentifierRead(s) => s,
        SpecOperator::VariableIdentifierWrite(s) => s,
        SpecOperator::FunctionIdentifier(s) => s,
    }
}

impl Operator {
    /// Renders the operator as code text.
    pub fn text(&self) -> (r: String)
        ensures
            r@ == spec_op_text(self@),
    {
        match self {
            Operator::RootNode => String::new(),
            Operator::Add => String::from_str("+"),
            Operator::Sub => String::from_str("-"),
            Operator::Mul => String::from_str("*"),
            Operator::Div => String::from_str("/"),
            Operator::Mod => String::from_str("%"),
            Operator::Eq => String::from_str("=="),
            Operator::Neq => String::from_str("!="),
            Operator::Gt => String::from_str(">"),
            Operator::Lt => String::from_str("<"),
            Operator::Geq => String::from_str(">="),
            Operator::Leq => String::from_str("<="),
            Operator::And => String::from_str("&&"),
            Operator::Or => String::from_str("||"),
            Operator::Not => String::from_str("!"),
            Operator::Neg => String::from_str("-"),
            Operator::Assign => String::from_str("="),
            Operator::Chain => String::from_str(";"),
            Operator::Tuple => String::from_str(","),
            Operator::Const(v) => match v {
                ExprValue::Int(x) => crate::text::i64_to_string(*x),
                ExprValue::Boolean(b) => {
                    if *b {
                        String::from_str("true")
                    } else {
                        String::from_str("false")
                    }
                },
                ExprValue::Text(s) => {
                    let mut r = String::new();
                    r.push('"');
                    r.append(s.as_str());
                    r.push('"');
                    proof {
                        assert(r@ =~= seq!['"'] + s@ + seq!['"']);
                    }
                    r
                },
                ExprValue::Unit => String::from_str("()"),
            },
            Operator::VariableIdentifierRead(s) => s.clone(),
            Operator::VariableIdentifierWrite(s) => s.clone(),
            Operator::FunctionIdentifier(s) => s.clone(),
        }
    }
}

} // verus!
