//! The code generator: from an analysed module to one C source text.

use vstd::prelude::*;
use vstd::string::StringExecFns;
use crate::codegen::lowering::Inferred;
use crate::lexer::token::Token;
use crate::parser::ast::expr::{Expr, exprs_view, fields_view};
use crate::parser::ast::stmt::{KungBranch, Stmt, StmtView, branches_view, params_view, stmts_view};
use crate::parser::module::Module;
use crate::semantic_analyzer::inferred_view;
use crate::text::{chars_of, copy_str, push_decimal, str_eq, string_of, strings_view};
use crate::toltype::{TolType, TolTypeView};

pub mod lowering;

verus! {

pub struct CodeGenerator<'a> {
    parent_module: &'a Module,
    output: String,
}

/// Whether `r` is the text that `expected` says, or none where it says
/// that there is none.
pub open spec fn gives(r: Option<String>, expected: Option<Seq<char>>) -> bool {
    match r {
        Some(s) => expected == Some(s@),
        None => expected is None,
    }
}

/// The view of a type that may be there.
pub open spec fn type_option_view(t: Option<&TolType>) -> Option<TolTypeView> {
    match t {
        Some(ty) => Some(ty@),
        None => None,
    }
}

/// `start` with `count` more zeros, each after a `,` unless it is the
/// first thing of the list.
pub fn pad_zeros(start: String, count: usize, first: bool) -> (r: String)
    ensures
        r@ == lowering::pad_zeros(start@, count as nat, first),
{
    let mut out = start;
    let mut left = count;
    let mut at_start = first;
    while left > 0
        invariant
            lowering::pad_zeros(out@, left as nat, at_start) == lowering::pad_zeros(
                start@,
                count as nat,
                first,
            ),
        decreases left,
    {
        if at_start {
            out.append("0");
        } else {
            out.append(",0");
        }
        at_start = false;
        left = left - 1;
    }
    out
}

/// What follows the prefix of array types in `name`, where `name` starts
/// with it.
pub fn strip_array_prefix(name: &str) -> (r: Option<String>)
    ensures
        r is Some <==> lowering::array_prefix().is_prefix_of(name@),
        r matches Some(rest) ==> rest@ == name@.skip(lowering::array_prefix().len() as int),
{
    let chars = chars_of(name);
    let prefix = chars_of("TOL_Array_");
    if chars.len() < prefix.len() {
        return None;
    }
    let mut i: usize = 0;
    while i < prefix.len()
        invariant
            0 <= i <= prefix.len() <= chars.len(),
            prefix@ == lowering::array_prefix(),
            chars@ == name@,
            forall|j: int| 0 <= j < i ==> chars@[j] == prefix@[j],
        decreases prefix.len() - i,
    {
        if chars[i] != prefix[i] {
            assert(prefix@[i as int] != name@.subrange(0, prefix@.len() as int)[i as int]);
            return None;
        }
        i = i + 1;
    }
    assert(prefix@ =~= name@.subrange(0, prefix@.len() as int));
    let rest = string_of(&chars, prefix.len(), chars.len());
    assert(name@.skip(prefix@.len() as int) =~= chars@.subrange(
        prefix@.len() as int,
        chars@.len() as int,
    ));
    Some(rest)
}

impl<'a> CodeGenerator<'a> {
    /// The module that is lowered.
    pub closed spec fn module(&self) -> &Module {
        self.parent_module
    }

    /// The statements that are lowered.
    pub closed spec fn program(&self) -> Seq<StmtView> {
        stmts_view(self.parent_module.ast@)
    }

    /// The types found for nodes, by node id.
    pub closed spec fn inferred(&self) -> Inferred {
        inferred_view(self.parent_module.inferred_types@)
    }

    /// The array types that are used.
    pub closed spec fn arrays(&self) -> Seq<Seq<char>> {
        strings_view(self.parent_module.declared_array_types@)
    }

    /// The C text of the module, where it has one.
    pub open spec fn emits(&self) -> Option<Seq<char>> {
        lowering::emitted(self.inferred(), self.arrays(), self.program())
    }

    pub fn new(parent_module: &'a Module) -> (g: Self)
        ensures
            g.module() == parent_module,
            g.program() == stmts_view(parent_module.ast@),
            g.inferred() == inferred_view(parent_module.inferred_types@),
            g.arrays() == strings_view(parent_module.declared_array_types@),
    {
        Self { parent_module, output: String::new() }
    }

    /// The type found for a node.
    fn get_inferred_type(&self, id: usize) -> (r: Option<&TolType>)
        ensures
            r is Some <==> self.inferred().dom().contains(id),
            r matches Some(t) ==> t@ == self.inferred()[id],
    {
        broadcast use vstd::std_specs::hash::group_hash_axioms;

        self.parent_module.inferred_types.get(&id)
    }

    /// The line that brings in what the emitted code needs of this
    /// language.
    fn include_custom_headers(&self) -> (s: String)
        ensures
            s@ == lowering::custom_headers(),
    {
        copy_str("#include \"tol_helper.h\"\n")
    }

    /// The texts of expressions with `,` between them, after `start`.
    fn gen_args(&self, args: &Vec<Expr>, start: String) -> (r: Option<String>)
        ensures
            gives(r, lowering::emit_args(self.inferred(), exprs_view(args@), 0, start@)),
        decreases args, 0nat,
    {
        let mut out = start;
        let ghost goal = lowering::emit_args(self.inferred(), exprs_view(args@), 0, start@);
        let mut i: usize = 0;
        while i < args.len()
            invariant
                0 <= i <= args.len(),
                goal == lowering::emit_args(self.inferred(), exprs_view(args@), 0, start@),
                goal == lowering::emit_args(self.inferred(), exprs_view(args@), i as int, out@),
            decreases args.len() - i,
        {
            assert(exprs_view(args@)[i as int] == args@[i as int]@);
            let text = match self.gen_expression(&args[i], None) {
                None => {
                    return None;
                },
                Some(t) => t,
            };
            if i > 0 {
                out.append(",");
            }
            out.append(text.as_str());
            i = i + 1;
        }
        Some(out)
    }

    /// The fields of a record literal as `.name=value`, with `,` between
    /// them.
    fn gen_fields(&self, fields: &Vec<(Token, Expr)>) -> (r: Option<String>)
        ensures
            gives(
                r,
                lowering::emit_fields(self.inferred(), fields_view(fields@), 0, Seq::empty()),
            ),
        decreases fields, 0nat,
    {
        let mut out = String::new();
        let ghost goal = lowering::emit_fields(
            self.inferred(),
            fields_view(fields@),
            0,
            Seq::empty(),
        );
        let mut i: usize = 0;
        while i < fields.len()
            invariant
                0 <= i <= fields.len(),
                goal == lowering::emit_fields(
                    self.inferred(),
                    fields_view(fields@),
                    0,
                    Seq::empty(),
                ),
                goal == lowering::emit_fields(self.inferred(), fields_view(fields@), i as int, out@),
            decreases fields.len() - i,
        {
            assert(fields_view(fields@)[i as int] == (fields@[i as int].0@, fields@[i as int].1@));
            let text = match self.gen_expression(&fields[i].1, None) {
                None => {
                    return None;
                },
                Some(t) => t,
            };
            if i > 0 {
                out.append(",.");
            } else {
                out.append(".");
            }
            out.append(fields[i].0.lexeme());
            out.append("=");
            out.append(text.as_str());
            i = i + 1;
        }
        Some(out)
    }

    /// The text of an expression.
    #[verifier::rlimit(80)]
    fn gen_expression(&self, expr: &Expr, left_type: Option<&TolType>) -> (r: Option<String>)
        ensures
            gives(r, lowering::emit_expr(self.inferred(), expr@, type_option_view(left_type))),
        decreases expr, 1nat,
    {
        match expr {
            Expr::IntLit { token, .. } => Some(copy_str(token.lexeme())),
            Expr::FloatLit { token, .. } => Some(copy_str(token.lexeme())),
            Expr::Identifier { token, .. } => Some(copy_str(token.lexeme())),
            Expr::ByteStringLit { token, .. } => {
                let mut s = copy_str("(TOL_Array_uint8_t){ .data = \"");
                s.append(token.lexeme());
                s.append("\", .len = ");
                push_decimal(&mut s, token.lexeme().len());
                s.append(" }");
                Some(s)
            },
            Expr::StringLit { .. } => None,
            Expr::Binary { op, left, right, .. } => {
                let l = match self.gen_expression(left, None) {
                    None => {
                        return None;
                    },
                    Some(t) => t,
                };
                let r = match self.gen_expression(right, None) {
                    None => {
                        return None;
                    },
                    Some(t) => t,
                };
                let mut s = copy_str("(");
                s.append(l.as_str());
                s.append(" ");
                s.append(op.lexeme());
                s.append(" ");
                s.append(r.as_str());
                s.append(")");
                Some(s)
            },
            Expr::Assign { left, right, .. } => {
                let l = match self.gen_expression(left, None) {
                    None => {
                        return None;
                    },
                    Some(t) => t,
                };
                let r = match self.gen_expression(right, None) {
                    None => {
                        return None;
                    },
                    Some(t) => t,
                };
                let mut s = l;
                s.append(" = ");
                s.append(r.as_str());
                Some(s)
            },
            Expr::FnCall { .. } => self.gen_fncall(expr),
            Expr::MemberAccess { left, member, .. } => {
                match self.gen_expression(left, None) {
                    None => None,
                    Some(l) => {
                        let mut s = l;
                        s.append(".");
                        s.append(member.lexeme());
                        Some(s)
                    },
                }
            },
            Expr::ScopeResolution { field, .. } => Some(copy_str(field.lexeme())),
            Expr::MagicFnCall { .. } => self.gen_magic_fncall(expr),
            Expr::Struct { callee, fields, .. } => {
                let callee_c = match self.gen_expression(callee, None) {
                    None => {
                        return None;
                    },
                    Some(t) => t,
                };
                let fields_c = match self.gen_fields(fields) {
                    None => {
                        return None;
                    },
                    Some(t) => t,
                };
                let mut s = copy_str("(struct ");
                s.append(callee_c.as_str());
                s.append("){ ");
                s.append(fields_c.as_str());
                s.append(" }");
                Some(s)
            },
            Expr::Array { .. } => self.gen_array(expr, left_type),
            Expr::AddressOf { of, .. } => match self.gen_expression(of, None) {
                None => None,
                Some(x) => {
                    let mut s = copy_str("(&");
                    s.append(x.as_str());
                    s.append(")");
                    Some(s)
                },
            },
            Expr::MutableAddressOf { of, .. } => match self.gen_expression(of, None) {
                None => None,
                Some(x) => {
                    let mut s = copy_str("(&");
                    s.append(x.as_str());
                    s.append(")");
                    Some(s)
                },
            },
            Expr::Deref { right, .. } => match self.gen_expression(right, None) {
                None => None,
                Some(x) => {
                    let mut s = copy_str("(*");
                    s.append(x.as_str());
                    s.append(")");
                    Some(s)
                },
            },
            Expr::RangeExclusive { .. } => None,
            Expr::RangeInclusive { .. } => None,
        }
    }

    /// The text of a call.
    fn gen_fncall(&self, expr: &Expr) -> (r: Option<String>)
        requires
            expr is FnCall,
        ensures
            gives(r, lowering::emit_fncall(self.inferred(), expr@)),
        decreases expr, 0nat,
    {
        match expr {
            Expr::FnCall { callee, args, .. } => {
                let args_c = match self.gen_args(args, String::new()) {
                    None => {
                        return None;
                    },
                    Some(a) => a,
                };
                assert(exprs_view(args@).len() == args.len());
                match &**callee {
                    Expr::Identifier { token, .. } => {
                        assert(callee@ is Identifier);
                        let mut s = copy_str("(");
                        s.append(token.lexeme());
                        s.append("(");
                        s.append(args_c.as_str());
                        s.append("))");
                        Some(s)
                    },
                    Expr::MemberAccess { left, member, .. } => {
                        assert(callee@ is MemberAccess);
                        let l = match self.gen_expression(left, None) {
                            None => {
                                return None;
                            },
                            Some(t) => t,
                        };
                        let mut s = copy_str("(");
                        s.append(member.lexeme());
                        s.append("(");
                        s.append(l.as_str());
                        if args.len() > 0 {
                            s.append(", ");
                            s.append(args_c.as_str());
                        }
                        s.append("))");
                        Some(s)
                    },
                    Expr::ScopeResolution { field, .. } => {
                        assert(callee@ is ScopeResolution);
                        let mut s = copy_str(field.lexeme());
                        s.append("(");
                        s.append(args_c.as_str());
                        s.append(")");
                        Some(s)
                    },
                    _ => {
                        assert(!(callee@ is Identifier) && !(callee@ is MemberAccess) && !(callee@
                            is ScopeResolution));
                        None
                    },
                }
            },
            _ => None,
        }
    }

    /// The text of a call of something that the language itself provides.
    fn gen_magic_fncall(&self, expr: &Expr) -> (r: Option<String>)
        requires
            expr is MagicFnCall,
        ensures
            gives(r, lowering::emit_magic_fncall(self.inferred(), expr@)),
        decreases expr, 0nat,
    {
        match expr {
            Expr::MagicFnCall { name, args, .. } => {
                let args_c = match self.gen_args(args, String::new()) {
                    None => {
                        return None;
                    },
                    Some(a) => a,
                };
                if str_eq(name.lexeme(), "print") {
                    let mut s = copy_str("fputs(");
                    s.append(args_c.as_str());
                    s.append(", stdout)");
                    Some(s)
                } else if str_eq(name.lexeme(), "println") {
                    let mut s = copy_str("puts(");
                    s.append(args_c.as_str());
                    s.append(")");
                    Some(s)
                } else if str_eq(name.lexeme(), "alis") {
                    let mut s = copy_str("exit(");
                    s.append(args_c.as_str());
                    s.append(")");
                    Some(s)
                } else {
                    None
                }
            },
            _ => None,
        }
    }

    /// The text of an array literal.
    fn gen_array(&self, expr: &Expr, left_type: Option<&TolType>) -> (r: Option<String>)
        requires
            expr is Array,
        ensures
            gives(r, lowering::emit_array(self.inferred(), expr@, type_option_view(left_type))),
        decreases expr, 0nat,
    {
        match expr {
            Expr::Array { elements, id, .. } => {
                assert(exprs_view(elements@).len() == elements.len());
                let len = match left_type {
                    Some(TolType::Array(_, Some(l))) => *l,
                    _ => elements.len(),
                };
                let inner = match left_type {
                    Some(TolType::Array(inner, _)) => inner,
                    _ => match self.get_inferred_type(*id) {
                        Some(TolType::Array(inner, _)) => inner,
                        _ => {
                            return None;
                        },
                    },
                };
                let inner_c = match inner.c_name() {
                    None => {
                        return None;
                    },
                    Some(c) => c,
                };
                let items = match self.gen_args(elements, copy_str("{")) {
                    None => {
                        return None;
                    },
                    Some(t) => t,
                };
                if len < elements.len() {
                    return None;
                }
                let padded = pad_zeros(items, len - elements.len(), elements.len() == 0);
                let mut s = copy_str("(TOL_Array_");
                s.append(inner_c.as_str());
                s.append("){ .data = (");
                s.append(inner_c.as_str());
                s.append("[])");
                s.append(padded.as_str());
                s.append("}, .len = ");
                push_decimal(&mut s, len);
                s.append(" }");
                Some(s)
            },
            _ => None,
        }
    }
}

impl<'a> CodeGenerator<'a> {
    /// The parameter list of a function, parentheses included. `ako` has
    /// the type `itupad_for`.
    fn gen_params(&self, params: &Vec<(Token, TolType)>, itupad_for: Option<&TolType>) -> (r:
        Option<String>)
        ensures
            gives(r, lowering::emit_params(params_view(params@), type_option_view(itupad_for))),
    {
        let mut c_params = copy_str("(");
        let ghost goal = lowering::emit_param_list(
            params_view(params@),
            type_option_view(itupad_for),
            0,
            "("@,
        );
        let mut i: usize = 0;
        while i < params.len()
            invariant
                0 <= i <= params.len(),
                goal == lowering::emit_param_list(
                    params_view(params@),
                    type_option_view(itupad_for),
                    0,
                    "("@,
                ),
                goal == lowering::emit_param_list(
                    params_view(params@),
                    type_option_view(itupad_for),
                    i as int,
                    c_params@,
                ),
            decreases params.len() - i,
        {
            let param_name = &params[i].0;
            let param_type = &params[i].1;
            assert(params_view(params@)[i as int] == (param_name@, param_type@));
            let ty = match param_type {
                TolType::AkoType => match itupad_for {
                    Some(t) => t,
                    None => {
                        return None;
                    },
                },
                _ => param_type,
            };
            let type_c = match ty.c_name() {
                None => {
                    return None;
                },
                Some(c) => c,
            };
            if i > 0 {
                c_params.append(",");
            }
            c_params.append(type_c.as_str());
            c_params.append(" ");
            c_params.append(param_name.lexeme());
            i = i + 1;
        }
        c_params.append(")");
        Some(c_params)
    }

    /// The fields of a record as `type name;`, after `start`.
    fn gen_record_fields(&self, fields: &Vec<(Token, TolType)>, start: String) -> (r: Option<
        String,
    >)
        ensures
            gives(r, lowering::emit_record_fields(params_view(fields@), 0, start@)),
    {
        let mut out = start;
        let ghost goal = lowering::emit_record_fields(params_view(fields@), 0, start@);
        let mut i: usize = 0;
        while i < fields.len()
            invariant
                0 <= i <= fields.len(),
                goal == lowering::emit_record_fields(params_view(fields@), 0, start@),
                goal == lowering::emit_record_fields(params_view(fields@), i as int, out@),
            decreases fields.len() - i,
        {
            assert(params_view(fields@)[i as int] == (fields@[i as int].0@, fields@[i as int].1@));
            let type_c = match fields[i].1.c_name() {
                None => {
                    return None;
                },
                Some(c) => c,
            };
            out.append(type_c.as_str());
            out.append(" ");
            out.append(fields[i].0.lexeme());
            out.append(";");
            i = i + 1;
        }
        Some(out)
    }

    /// The texts of statements, after `start`.
    fn gen_stmts(&self, statements: &Vec<Stmt>, start: String) -> (r: Option<String>)
        ensures
            gives(r, lowering::emit_stmts(self.inferred(), stmts_view(statements@), 0, start@)),
        decreases statements, 0nat,
    {
        let mut out = start;
        let ghost goal = lowering::emit_stmts(self.inferred(), stmts_view(statements@), 0, start@);
        let mut i: usize = 0;
        while i < statements.len()
            invariant
                0 <= i <= statements.len(),
                goal == lowering::emit_stmts(self.inferred(), stmts_view(statements@), 0, start@),
                goal == lowering::emit_stmts(
                    self.inferred(),
                    stmts_view(statements@),
                    i as int,
                    out@,
                ),
            decreases statements.len() - i,
        {
            assert(stmts_view(statements@)[i as int] == statements@[i as int]@);
            let text = match self.gen_statement(&statements[i]) {
                None => {
                    return None;
                },
                Some(t) => t,
            };
            out.append(text.as_str());
            i = i + 1;
        }
        Some(out)
    }

    /// The text of a block.
    fn gen_block(&self, block: &Stmt) -> (r: Option<String>)
        ensures
            gives(r, lowering::emit_block(self.inferred(), block@)),
        decreases block, 0nat,
    {
        match block {
            Stmt::Block { statements, .. } => match self.gen_stmts(statements, copy_str("{")) {
                None => None,
                Some(body) => {
                    let mut out = body;
                    out.append("}");
                    Some(out)
                },
            },
            _ => None,
        }
    }

    /// The text of a function with the given name in C.
    fn gen_function(
        &self,
        name: &str,
        params: &Vec<(Token, TolType)>,
        return_type: &TolType,
        block: &Stmt,
        itupad_for: Option<&TolType>,
    ) -> (r: Option<String>)
        ensures
            gives(
                r,
                lowering::emit_function(
                    self.inferred(),
                    name@,
                    params_view(params@),
                    return_type@,
                    block@,
                    type_option_view(itupad_for),
                ),
            ),
        decreases block, 1nat,
    {
        let type_c = match return_type.c_name() {
            None => {
                return None;
            },
            Some(c) => c,
        };
        let params_c = match self.gen_params(params, itupad_for) {
            None => {
                return None;
            },
            Some(p) => p,
        };
        let block_c = match self.gen_block(block) {
            None => {
                return None;
            },
            Some(b) => b,
        };
        let mut s = type_c;
        s.append(" ");
        s.append(name);
        s.append(params_c.as_str());
        s.append(block_c.as_str());
        Some(s)
    }

    /// The text of a method of the type `itupad_for`.
    fn gen_method(&self, method: &Stmt, itupad_for: &TolType) -> (r: Option<String>)
        ensures
            gives(
                r,
                match method@ {
                    StmtView::Method { met_identifier, params, return_type, block, .. } => {
                        lowering::emit_function(
                            self.inferred(),
                            met_identifier.lexeme,
                            params,
                            return_type,
                            *block,
                            Some(itupad_for@),
                        )
                    },
                    _ => None,
                },
            ),
        decreases method, 0nat,
    {
        match method {
            Stmt::Method { met_identifier, params, return_type, block, .. } => self.gen_function(
                met_identifier.lexeme(),
                params,
                return_type,
                block,
                Some(itupad_for),
            ),
            _ => None,
        }
    }

    /// The texts of the methods of the type `itupad_for`.
    fn gen_methods(&self, methods: &Vec<Stmt>, itupad_for: &TolType) -> (r: Option<String>)
        ensures
            gives(
                r,
                lowering::emit_methods(
                    self.inferred(),
                    stmts_view(methods@),
                    itupad_for@,
                    0,
                    Seq::empty(),
                ),
            ),
        decreases methods, 1nat,
    {
        let mut out = String::new();
        let ghost goal = lowering::emit_methods(
            self.inferred(),
            stmts_view(methods@),
            itupad_for@,
            0,
            Seq::empty(),
        );
        let mut i: usize = 0;
        while i < methods.len()
            invariant
                0 <= i <= methods.len(),
                goal == lowering::emit_methods(
                    self.inferred(),
                    stmts_view(methods@),
                    itupad_for@,
                    0,
                    Seq::empty(),
                ),
                goal == lowering::emit_methods(
                    self.inferred(),
                    stmts_view(methods@),
                    itupad_for@,
                    i as int,
                    out@,
                ),
            decreases methods.len() - i,
        {
            assert(stmts_view(methods@)[i as int] == methods@[i as int]@);
            let text = match self.gen_method(&methods[i], itupad_for) {
                None => {
                    return None;
                },
                Some(t) => t,
            };
            out.append(text.as_str());
            i = i + 1;
        }
        Some(out)
    }

    /// The texts of the branches of a conditional.
    fn gen_branches(&self, branches: &Vec<KungBranch>) -> (r: Option<String>)
        ensures
            gives(
                r,
                lowering::emit_branches(
                    self.inferred(),
                    branches_view(branches@),
                    0,
                    Seq::empty(),
                ),
            ),
        decreases branches, 0nat,
    {
        let mut if_c = String::new();
        let ghost goal = lowering::emit_branches(
            self.inferred(),
            branches_view(branches@),
            0,
            Seq::empty(),
        );
        let mut i: usize = 0;
        while i < branches.len()
            invariant
                0 <= i <= branches.len(),
                goal == lowering::emit_branches(
                    self.inferred(),
                    branches_view(branches@),
                    0,
                    Seq::empty(),
                ),
                goal == lowering::emit_branches(
                    self.inferred(),
                    branches_view(branches@),
                    i as int,
                    if_c@,
                ),
            decreases branches.len() - i,
        {
            let branch = &branches[i];
            assert(branches_view(branches@)[i as int] == branch@);
            let body = match self.gen_block(&branch.block) {
                None => {
                    return None;
                },
                Some(b) => b,
            };
            match &branch.condition {
                Some(c) => {
                    let cond = match self.gen_expression(c, None) {
                        None => {
                            return None;
                        },
                        Some(t) => t,
                    };
                    if i == 0 {
                        if_c.append("if (");
                    } else {
                        if_c.append("else if (");
                    }
                    if_c.append(cond.as_str());
                    if_c.append(")");
                    if_c.append(body.as_str());
                },
                None => {
                    if i == 0 {
                        return None;
                    }
                    if_c.append("else ");
                    if_c.append(body.as_str());
                },
            }
            i = i + 1;
        }
        Some(if_c)
    }

    /// The text of a loop over a range.
    fn gen_sa(&self, stmt: &Stmt) -> (r: Option<String>)
        requires
            stmt is Sa,
        ensures
            gives(r, lowering::emit_sa(self.inferred(), stmt@)),
        decreases stmt, 0nat,
    {
        match stmt {
            Stmt::Sa { iterator, bind, block, id, .. } => {
                let (start, end, sign) = match iterator {
                    Expr::RangeExclusive { start, end, .. } => (start, end, " < "),
                    Expr::RangeInclusive { start, end, .. } => (start, end, " <= "),
                    _ => {
                        return None;
                    },
                };
                let bind_type = match self.get_inferred_type(*id) {
                    None => {
                        return None;
                    },
                    Some(t) => match t.c_name() {
                        None => {
                            return None;
                        },
                        Some(c) => c,
                    },
                };
                let start_c = match self.gen_expression(start, None) {
                    None => {
                        return None;
                    },
                    Some(t) => t,
                };
                let end_c = match self.gen_expression(end, None) {
                    None => {
                        return None;
                    },
                    Some(t) => t,
                };
                let block_c = match self.gen_block(block) {
                    None => {
                        return None;
                    },
                    Some(t) => t,
                };
                let mut s = copy_str("for (");
                s.append(bind_type.as_str());
                s.append(" ");
                s.append(bind.lexeme());
                s.append(" = ");
                s.append(start_c.as_str());
                s.append("; ");
                s.append(bind.lexeme());
                s.append(sign);
                s.append(end_c.as_str());
                s.append("; ");
                s.append(bind.lexeme());
                s.append("++) ");
                s.append(block_c.as_str());
                Some(s)
            },
            _ => None,
        }
    }

    /// The text of a binding.
    fn gen_ang(&self, stmt: &Stmt) -> (r: Option<String>)
        requires
            stmt is Ang,
        ensures
            gives(r, lowering::emit_ang(self.inferred(), stmt@)),
    {
        match stmt {
            Stmt::Ang { mutable, ang_identifier, ang_type, rhs, id, .. } => {
                let ang_type = match ang_type {
                    TolType::Unknown => match self.get_inferred_type(*id) {
                        None => {
                            return None;
                        },
                        Some(t) => t,
                    },
                    _ => ang_type,
                };
                let type_c = match ang_type.c_name() {
                    None => {
                        return None;
                    },
                    Some(c) => c,
                };
                let rhs_c = match self.gen_expression(rhs, Some(ang_type)) {
                    None => {
                        return None;
                    },
                    Some(t) => t,
                };
                let mut s = if *mutable {
                    type_c
                } else {
                    let mut c = copy_str("const ");
                    c.append(type_c.as_str());
                    c
                };
                s.append(" ");
                s.append(ang_identifier.lexeme());
                s.append(" = ");
                s.append(rhs_c.as_str());
                s.append(";");
                Some(s)
            },
            _ => None,
        }
    }

    /// The text of a statement.
    #[verifier::rlimit(80)]
    fn gen_statement(&self, stmt: &Stmt) -> (r: Option<String>)
        ensures
            gives(r, lowering::emit_stmt(self.inferred(), stmt@)),
        decreases stmt, 2nat,
    {
        match stmt {
            Stmt::Ang { .. } => self.gen_ang(stmt),
            Stmt::Par { par_identifier, params, return_type, block, .. } => {
                let id_c = if str_eq(par_identifier.lexeme(), "una") {
                    "__TOL_main__"
                } else {
                    par_identifier.lexeme()
                };
                self.gen_function(id_c, params, return_type, block, None)
            },
            Stmt::Ibalik { rhs, .. } => match self.gen_expression(rhs, None) {
                None => None,
                Some(value) => {
                    let mut s = copy_str("return ");
                    s.append(value.as_str());
                    s.append(";");
                    Some(s)
                },
            },
            Stmt::ExprS { expr, .. } => match self.gen_expression(expr, None) {
                None => None,
                Some(value) => {
                    let mut s = value;
                    s.append(";");
                    Some(s)
                },
            },
            Stmt::Bagay { bagay_identifier, fields, .. } => {
                let mut start = copy_str("typedef struct ");
                start.append(bagay_identifier.lexeme());
                start.append("{");
                match self.gen_record_fields(fields, start) {
                    None => None,
                    Some(body) => {
                        let mut s = body;
                        s.append("}");
                        s.append(bagay_identifier.lexeme());
                        s.append(";");
                        Some(s)
                    },
                }
            },
            Stmt::Itupad { itupad_for, itupad_block, .. } => {
                assert(itupad_block@ is ItupadBlock == (**itupad_block is ItupadBlock));
                match &**itupad_block {
                    Stmt::ItupadBlock { methods, .. } => {
                        assert(itupad_block@->ItupadBlock_methods == stmts_view(methods@));
                        self.gen_methods(methods, itupad_for)
                    },
                    _ => None,
                }
            },
            Stmt::Kung { branches, .. } => self.gen_branches(branches),
            Stmt::Sa { .. } => self.gen_sa(stmt),
            _ => Some(String::new()),
        }
    }

    /// The texts of the statements of the program that are records, or of
    /// those that are not, after `start`.
    fn gen_selected(&self, records: bool, start: String) -> (r: Option<String>)
        ensures
            gives(r, lowering::emit_selected(self.inferred(), self.program(), records, 0, start@)),
    {
        let statements = &self.parent_module.ast;
        let mut out = start;
        let ghost goal = lowering::emit_selected(
            self.inferred(),
            self.program(),
            records,
            0,
            start@,
        );
        let mut i: usize = 0;
        while i < statements.len()
            invariant
                0 <= i <= statements.len(),
                statements == &self.parent_module.ast,
                goal == lowering::emit_selected(
                    self.inferred(),
                    self.program(),
                    records,
                    0,
                    start@,
                ),
                goal == lowering::emit_selected(
                    self.inferred(),
                    self.program(),
                    records,
                    i as int,
                    out@,
                ),
            decreases statements.len() - i,
        {
            assert(stmts_view(statements@)[i as int] == statements@[i as int]@);
            let is_record = matches!(&statements[i], Stmt::Bagay { .. });
            if is_record == records {
                let text = match self.gen_statement(&statements[i]) {
                    None => {
                        return None;
                    },
                    Some(t) => t,
                };
                out.append(text.as_str());
            }
            i = i + 1;
        }
        Some(out)
    }

    /// The definitions of the array types, one line each, after `start`.
    fn declare_array_structs(&self, start: String) -> (r: Option<String>)
        ensures
            gives(r, lowering::emit_array_structs(self.arrays(), 0, start@)),
    {
        let mut array_structs = start;
        let ghost goal = lowering::emit_array_structs(self.arrays(), 0, start@);
        let mut i: usize = 0;
        while i < self.parent_module.declared_array_types.len()
            invariant
                0 <= i <= self.parent_module.declared_array_types.len(),
                goal == lowering::emit_array_structs(self.arrays(), 0, start@),
                goal == lowering::emit_array_structs(self.arrays(), i as int, array_structs@),
            decreases self.parent_module.declared_array_types.len() - i,
        {
            let declared_type = &self.parent_module.declared_array_types[i];
            assert(self.arrays()[i as int] == declared_type@);
            match strip_array_prefix(declared_type.as_str()) {
                None => {
                    return None;
                },
                Some(element) => {
                    array_structs.append("DEFINE_TOL_ARRAY_STRUCT(");
                    array_structs.append(element.as_str());
                    array_structs.append(")\n");
                },
            }
            i = i + 1;
        }
        Some(array_structs)
    }

    /// The records, the array types, then everything else, after `start`.
    fn gen_statements(&self, start: String) -> (r: Option<String>)
        ensures
            gives(
                r,
                match lowering::emit_selected(self.inferred(), self.program(), true, 0, start@) {
                    None => None,
                    Some(records) => match lowering::emit_array_structs(
                        self.arrays(),
                        0,
                        records + "\n"@,
                    ) {
                        None => None,
                        Some(types) => lowering::emit_selected(
                            self.inferred(),
                            self.program(),
                            false,
                            0,
                            types,
                        ),
                    },
                },
            ),
    {
        let mut out = match self.gen_selected(true, start) {
            None => {
                return None;
            },
            Some(t) => t,
        };
        out.append("\n");
        let types = match self.declare_array_structs(out) {
            None => {
                return None;
            },
            Some(t) => t,
        };
        self.gen_selected(false, types)
    }

    /// The C text of the module, or none where the module holds what
    /// cannot be lowered. The text is kept as the output.
    pub fn try_generate(&mut self) -> (r: Option<String>)
        ensures
            final(self).module() == old(self).module(),
            gives(r, old(self).emits()),
    {
        let mut start = self.include_custom_headers();
        start.append("#include <stdio.h>\n#include <stdlib.h>\n");
        match self.gen_statements(start) {
            None => None,
            Some(body) => {
                let mut out = body;
                out.append("int main(){__TOL_main__();return 0;}");
                self.output = out.clone();
                Some(out)
            },
        }
    }

    /// The C text of a module that can be lowered.
    pub fn generate(&mut self) -> (r: &String)
        requires
            old(self).emits() is Some,
        ensures
            final(self).module() == old(self).module(),
            Some(r@) == old(self).emits(),
    {
        match self.try_generate() {
            Some(out) => {
                self.output = out;
            },
            None => {},
        }
        &self.output
    }
}

} // verus!
