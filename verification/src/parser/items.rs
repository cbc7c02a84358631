//! Top-level declarations: functions, structs, enums, traits, impls,
//! constants, externs and imports.
use vstd::prelude::*;
use crate::ast::{
    AstNode, AstNodeKind, EnumVariant, FunctionParam, GenericParam, ImportItem, MethodParam,
    MethodSignature, Program, StructField, TypeAnnotation,
};
use crate::lexer::tokens::{push_token_text, TokenType, TokenTypeV};
use crate::meta::{Attribute, Meta};
use crate::parser::expr_grammar::params_view;
use crate::parser::grammar::{
    annotation_list_at, annotation_view, annotations_view, generics_view, prepend, tok,
    AnnotationV, GenericV,
};
use crate::parser::item_grammar::{
    annotation_opt_view, const_at, enum_at, extern_at, field_decl_at, field_decl_view, field_decls_view,
    fn_param_items_at, fn_params_at, function_at, generics_opt_at, impl_at, impl_methods_at, import_at,
    import_item_view, import_items_at, item_view, lemma_nodes_view_push, method_at, method_param_items_at, method_params_at, method_param_view, method_view, methods_at, node_view, nodes_view,
    program_at, return_opt_at, struct_at, struct_fields_at, trait_at, variant_at, variant_field_items_at,
    variant_fields_at, variant_view, variants_at, FieldDeclV, ItemV, MethodParamV, MethodV, NodeV, VariantV,
};
use crate::parser::types::error;
use crate::parser::{ParseError, Parser, Result};
use crate::text::owned;

verus! {

/// `r` is what `spec` says parsing a declaration gives.
pub open spec fn parsed_item(r: Result<AstNodeKind>, end: int, spec: std::result::Result<(ItemV, int), Seq<char>>) -> bool {
    match spec {
        Ok((v, k)) => r matches Ok(d) && item_view(d) == v && end == k,
        Err(m) => r matches Err(e) && e.message@ == m,
    }
}

impl Parser {
    /// A `Meta` for this parser's file with the given range and attributes.
    fn meta_with(&self, start: usize, end: usize, attributes: Vec<Attribute>) -> (r: Meta)
        ensures
            r.filename@ == self.filename(),
            r.range.start == start && r.range.end == end,
            r.attributes == attributes,
    {
        Meta {
            filename: self.filename.clone(),
            range: std::ops::Range { start, end },
            attributes,
        }
    }

    /// Parses a whole program: top-level declarations, each with its attributes.
    pub fn parse(&mut self) -> (r: Result<Program>)
        ensures
            final(self).moved_on(*old(self)),
            r is Ok ==> final(self).index() == final(self).tokens().len(),
            match program_at(old(self).tokens(), old(self).index()) {
                Ok((nodes, k)) => (r matches Ok(p) && nodes_view(p@) == nodes && final(self).index() == k),
                Err(m) => (r matches Err(e) && e.message@ == m),
            },
    {
        proof {
            use_type_invariant(&*self);
        }
        let ghost ts = self.tokens();
        let ghost start = self.index();
        let mut program: Vec<AstNode> = Vec::new();
        proof {
            assert(nodes_view(program@) =~= Seq::<NodeV>::empty());
            crate::parser::expr_grammar::lemma_prepend_empty(program_at(ts, start));
        }
        while !self.is_at_end()
            invariant
                self.moved_on(*old(self)),
                self.tokens() == ts,
                start == old(self).index(),
                program_at(ts, start) == prepend(nodes_view(program@), program_at(ts, self.index())),
            decreases self.remaining(),
        {
            proof {
                use_type_invariant(&*self);
            }
            let ghost cur = self.index();
            let ghost acc = nodes_view(program@);
            let ghost before = program@;
            let attributes = self.parse_attributes()?;
            let (start, start_end, token_type) = match self.peek() {
                Some(t) => (t.range.start, t.range.end, t.type_.duplicate()),
                None => {
                    return Err(error("Expected a top-level declaration"));
                },
            };
            let kind = match token_type {
                TokenType::Fn => {
                    self.advance();
                    self.parse_function()?
                },
                TokenType::Struct => {
                    self.advance();
                    self.parse_struct()?
                },
                TokenType::Enum => {
                    self.advance();
                    self.parse_enum()?
                },
                TokenType::Trait => {
                    self.advance();
                    self.parse_trait()?
                },
                TokenType::Impl => {
                    self.advance();
                    self.parse_impl()?
                },
                TokenType::Const => {
                    self.advance();
                    self.parse_const()?
                },
                TokenType::Extern => {
                    self.advance();
                    self.parse_extern()?
                },
                TokenType::Import => {
                    self.advance();
                    self.parse_import()?
                },
                other => {
                    let mut message = owned("Expected top-level declaration, found ");
                    push_token_text(&mut message, &other);
                    return Err(
                        ParseError {
                            message,
                            range: Some(std::ops::Range { start, end: start_end }),
                        },
                    );
                },
            };
            let end = self.peek_end(start);
            let node = AstNode { meta: self.meta_with(start, end, attributes), kind };
            let ghost nv = node_view(node);
            proof {
                lemma_nodes_view_push(before, node);
            }
            program.push(node);
            proof {
                crate::parser::expr_grammar::lemma_prepend_prepend(acc, seq![nv], program_at(ts, self.index()));
            }
        }
        proof {
            assert(nodes_view(program@) + Seq::<NodeV>::empty() =~= nodes_view(program@));
        }
        Ok(program)
    }

    /// Parses generic parameters when a `<` comes next.
    fn parse_optional_generic_params(&mut self) -> (r: Result<Vec<GenericParam>>)
        ensures
            final(self).moved_on(*old(self)),
            match generics_opt_at(old(self).tokens(), old(self).index()) {
                Ok((gs, k)) => (r matches Ok(v) && generics_view(v@) == gs && final(self).index() == k),
                Err(m) => (r matches Err(e) && e.message@ == m),
            },
    {
        proof {
            use_type_invariant(&*self);
        }
        if self.match_type(TokenType::Less) {
            self.parse_generic_params()
        } else {
            let none: Vec<GenericParam> = Vec::new();
            proof {
                assert(generics_view(none@) =~= Seq::<GenericV>::empty());
            }
            Ok(none)
        }
    }

    /// Parses function parameters after a `(`, up to and including the `)`.
    fn parse_function_params(&mut self) -> (r: Result<Vec<FunctionParam>>)
        ensures
            final(self).moved_on(*old(self)),
            r is Ok ==> final(self).index() > old(self).index(),
            match fn_params_at(old(self).tokens(), old(self).index()) {
                Ok((ps, k)) => (r matches Ok(v) && params_view(v@) == ps && final(self).index() == k),
                Err(m) => (r matches Err(e) && e.message@ == m),
            },
    {
        proof {
            use_type_invariant(&*self);
        }
        let ghost ts = self.tokens();
        let ghost start = self.index();
        let mut args: Vec<FunctionParam> = Vec::new();
        if !self.check_type(TokenType::RParen) {
            proof {
                assert(params_view(args@) =~= Seq::<(Seq<char>, AnnotationV)>::empty());
                crate::parser::expr_grammar::lemma_prepend_empty(fn_param_items_at(ts, start));
            }
            loop
                invariant_except_break
                    self.moved_on(*old(self)),
                    self.tokens() == ts,
                    start == old(self).index(),
                    tok(ts, start) != Some(TokenTypeV::Plain(TokenType::RParen)),
                    fn_param_items_at(ts, start) == prepend(params_view(args@), fn_param_items_at(ts, self.index())),
                ensures
                    self.moved_on(*old(self)),
                    self.tokens() == ts,
                    tok(ts, start) != Some(TokenTypeV::Plain(TokenType::RParen)),
                    fn_param_items_at(ts, start) == Ok::<(Seq<(Seq<char>, AnnotationV)>, int), Seq<char>>(
                        (params_view(args@), self.index()),
                    ),
                decreases self.remaining(),
            {
                let ghost acc = params_view(args@);
                let ghost before = args@;
                let param = self.parse_function_param()?;
                let ghost pv = (param.name@, annotation_view(param.type_annotation));
                proof {
                    crate::parser::expr_grammar::lemma_params_view_push(before, param);
                }
                args.push(param);
                if !self.match_type(TokenType::Comma) {
                    break;
                }
                proof {
                    crate::parser::expr_grammar::lemma_prepend_prepend(acc, seq![pv], fn_param_items_at(ts, self.index()));
                }
            }
        }
        self.consume_type(TokenType::RParen)?;
        Ok(args)
    }

    /// Parses a return type when a `->` comes next.
    fn parse_optional_return_type(&mut self) -> (r: Result<Option<TypeAnnotation>>)
        ensures
            final(self).moved_on(*old(self)),
            match return_opt_at(old(self).tokens(), old(self).index()) {
                Ok((rt, k)) => (r matches Ok(v) && annotation_opt_view(v) == rt && final(self).index() == k),
                Err(m) => (r matches Err(e) && e.message@ == m),
            },
    {
        proof {
            use_type_invariant(&*self);
        }
        if self.match_type(TokenType::Arrow) {
            Ok(Some(self.parse_type_annotation()?))
        } else {
            Ok(None)
        }
    }

    /// Parses a function after its `fn`: name, generic parameters,
    /// parameters, return type and body up to `end`.
    fn parse_function(&mut self) -> (r: Result<AstNodeKind>)
        ensures
            final(self).moved_on(*old(self)),
            r is Ok ==> final(self).index() > old(self).index(),
            parsed_item(r, final(self).index(), function_at(old(self).tokens(), old(self).index())),
    {
        let name = self.consume_identifier()?;
        let generic_params = self.parse_optional_generic_params()?;
        self.consume_type(TokenType::LParen)?;
        let args = self.parse_function_params()?;
        let return_type = self.parse_optional_return_type()?;
        let body = self.parse_block(false)?;
        Ok(AstNodeKind::Function { name, args, return_type, generic_params, body })
    }

    /// Parses a field declaration `name: type`, with its attributes.
    fn parse_field_declaration(&mut self, start: usize) -> (r: Result<StructField>)
        ensures
            final(self).moved_on(*old(self)),
            r is Ok ==> final(self).index() > old(self).index(),
            match field_decl_at(old(self).tokens(), old(self).index()) {
                Ok((f, k)) => (r matches Ok(v) && field_decl_view(v) == f && final(self).index() == k),
                Err(m) => (r matches Err(e) && e.message@ == m),
            },
    {
        let attributes = self.parse_attributes()?;
        let field_name = self.consume_identifier()?;
        self.consume_type(TokenType::Colon)?;
        let type_annotation = self.parse_type_annotation()?;
        let field_start = self.peek_start(start);
        let field_end = self.peek_end(field_start);
        Ok(StructField { name: field_name, type_annotation, meta: self.meta_with(field_start, field_end, attributes) })
    }

    /// Parses the field declarations of a struct, up to `end` or the end of
    /// the tokens.
    fn parse_struct_fields(&mut self) -> (r: Result<Vec<StructField>>)
        ensures
            final(self).moved_on(*old(self)),
            match struct_fields_at(old(self).tokens(), old(self).index()) {
                Ok((fs, k)) => (r matches Ok(v) && field_decls_view(v@) == fs && final(self).index() == k),
                Err(m) => (r matches Err(e) && e.message@ == m),
            },
    {
        proof {
            use_type_invariant(&*self);
        }
        let ghost ts = self.tokens();
        let ghost start = self.index();
        let mut fields: Vec<StructField> = Vec::new();
        proof {
            assert(field_decls_view(fields@) =~= Seq::<FieldDeclV>::empty());
            crate::parser::expr_grammar::lemma_prepend_empty(struct_fields_at(ts, start));
        }
        while !self.check_type(TokenType::End) && !self.is_at_end()
            invariant
                self.moved_on(*old(self)),
                self.tokens() == ts,
                start == old(self).index(),
                struct_fields_at(ts, start) == prepend(field_decls_view(fields@), struct_fields_at(ts, self.index())),
            decreases self.remaining(),
        {
            let ghost acc = field_decls_view(fields@);
            let ghost before = fields@;
            let field = self.parse_field_declaration(0)?;
            let ghost fv = field_decl_view(field);
            fields.push(field);
            proof {
                assert(field_decls_view(fields@) =~= acc + seq![fv]);
                crate::parser::expr_grammar::lemma_prepend_prepend(acc, seq![fv], struct_fields_at(ts, self.index()));
            }
        }
        proof {
            assert(field_decls_view(fields@) + Seq::<FieldDeclV>::empty() =~= field_decls_view(fields@));
        }
        Ok(fields)
    }

    /// Parses a struct after its `struct`: name, generic parameters and
    /// fields `name: type` up to `end`.
    fn parse_struct(&mut self) -> (r: Result<AstNodeKind>)
        ensures
            final(self).moved_on(*old(self)),
            r is Ok ==> final(self).index() > old(self).index(),
            parsed_item(r, final(self).index(), struct_at(old(self).tokens(), old(self).index())),
    {
        let name = self.consume_identifier()?;
        let generic_params = self.parse_optional_generic_params()?;
        let fields = self.parse_struct_fields()?;
        self.consume_type(TokenType::End)?;
        Ok(AstNodeKind::Struct { name, generic_params, fields })
    }

    /// Parses the fields of a struct-like enum variant after its `{`, up to
    /// and including the `}`.
    fn parse_variant_fields(&mut self, start: usize) -> (r: Result<Vec<StructField>>)
        ensures
            final(self).moved_on(*old(self)),
            r is Ok ==> final(self).index() > old(self).index(),
            match variant_fields_at(old(self).tokens(), old(self).index()) {
                Ok((fs, k)) => (r matches Ok(v) && field_decls_view(v@) == fs && final(self).index() == k),
                Err(m) => (r matches Err(e) && e.message@ == m),
            },
    {
        proof {
            use_type_invariant(&*self);
        }
        let ghost ts = self.tokens();
        let ghost first = self.index();
        let mut fields: Vec<StructField> = Vec::new();
        if !self.check_type(TokenType::RBrace) {
            proof {
                assert(field_decls_view(fields@) =~= Seq::<FieldDeclV>::empty());
                crate::parser::expr_grammar::lemma_prepend_empty(variant_field_items_at(ts, first));
            }
            loop
                invariant_except_break
                    self.moved_on(*old(self)),
                    self.tokens() == ts,
                    first == old(self).index(),
                    tok(ts, first) != Some(TokenTypeV::Plain(TokenType::RBrace)),
                    variant_field_items_at(ts, first) == prepend(
                        field_decls_view(fields@),
                        variant_field_items_at(ts, self.index()),
                    ),
                ensures
                    self.moved_on(*old(self)),
                    self.tokens() == ts,
                    tok(ts, first) != Some(TokenTypeV::Plain(TokenType::RBrace)),
                    variant_field_items_at(ts, first) == Ok::<(Seq<FieldDeclV>, int), Seq<char>>(
                        (field_decls_view(fields@), self.index()),
                    ),
                decreases self.remaining(),
            {
                let ghost acc = field_decls_view(fields@);
                let field = self.parse_field_declaration(start)?;
                let ghost fv = field_decl_view(field);
                fields.push(field);
                proof {
                    assert(field_decls_view(fields@) =~= acc + seq![fv]);
                }
                if !self.match_type(TokenType::Comma) {
                    break;
                }
                proof {
                    crate::parser::expr_grammar::lemma_prepend_prepend(acc, seq![fv], variant_field_items_at(ts, self.index()));
                }
            }
        }
        self.consume_type(TokenType::RBrace)?;
        Ok(fields)
    }

    /// Parses type annotations separated by commas after a `(`, up to and
    /// including the `)`.
    fn parse_type_list(&mut self) -> (r: Result<Vec<TypeAnnotation>>)
        ensures
            final(self).moved_on(*old(self)),
            r is Ok ==> final(self).index() > old(self).index(),
            match annotation_list_at(old(self).tokens(), old(self).index(), TokenType::RParen) {
                Ok((items, k)) => (r matches Ok(v) && annotations_view(v@) == items && final(self).index() == k),
                Err(m) => (r matches Err(e) && e.message@ == m),
            },
    {
        self.parse_annotation_list(TokenType::RParen)
    }

    /// Parses an enum variant: a name, then types in parentheses, fields in
    /// braces, or nothing.
    fn parse_variant(&mut self) -> (r: Result<EnumVariant>)
        ensures
            final(self).moved_on(*old(self)),
            r is Ok ==> final(self).index() > old(self).index(),
            match variant_at(old(self).tokens(), old(self).index()) {
                Ok((x, k)) => (r matches Ok(v) && variant_view(v) == x && final(self).index() == k),
                Err(m) => (r matches Err(e) && e.message@ == m),
            },
    {
        proof {
            use_type_invariant(&*self);
        }
        let variant_name = self.consume_identifier()?;
        let start = self.peek_start(0);
        if self.match_type(TokenType::LParen) {
            let fields = self.parse_type_list()?;
            let end = self.peek_end(start);
            Ok(EnumVariant::Tuple { name: variant_name, fields, meta: self.meta(start, end) })
        } else if self.match_type(TokenType::LBrace) {
            let fields = self.parse_variant_fields(start)?;
            let end = self.peek_end(start);
            Ok(EnumVariant::Struct { name: variant_name, fields, meta: self.meta(start, end) })
        } else {
            let end = self.peek_end(start);
            let none: Vec<TypeAnnotation> = Vec::new();
            proof {
                assert(annotations_view(none@) =~= Seq::<AnnotationV>::empty());
            }
            Ok(EnumVariant::Tuple { name: variant_name, fields: none, meta: self.meta(start, end) })
        }
    }

    /// Parses the variants of an enum, up to `end` or the end of the tokens.
    fn parse_variants(&mut self) -> (r: Result<Vec<EnumVariant>>)
        ensures
            final(self).moved_on(*old(self)),
            match variants_at(old(self).tokens(), old(self).index()) {
                Ok((vs, k)) => (r matches Ok(v) && v@.map_values(|x: EnumVariant| variant_view(x)) == vs
                    && final(self).index() == k),
                Err(m) => (r matches Err(e) && e.message@ == m),
            },
    {
        proof {
            use_type_invariant(&*self);
        }
        let ghost ts = self.tokens();
        let ghost start = self.index();
        let mut variants: Vec<EnumVariant> = Vec::new();
        proof {
            assert(variants@.map_values(|x: EnumVariant| variant_view(x)) =~= Seq::<VariantV>::empty());
            crate::parser::expr_grammar::lemma_prepend_empty(variants_at(ts, start));
        }
        while !self.check_type(TokenType::End) && !self.is_at_end()
            invariant
                self.moved_on(*old(self)),
                self.tokens() == ts,
                start == old(self).index(),
                variants_at(ts, start) == prepend(
                    variants@.map_values(|x: EnumVariant| variant_view(x)),
                    variants_at(ts, self.index()),
                ),
            decreases self.remaining(),
        {
            let ghost acc = variants@.map_values(|x: EnumVariant| variant_view(x));
            let variant = self.parse_variant()?;
            let ghost vv = variant_view(variant);
            variants.push(variant);
            proof {
                assert(variants@.map_values(|x: EnumVariant| variant_view(x)) =~= acc + seq![vv]);
                crate::parser::expr_grammar::lemma_prepend_prepend(acc, seq![vv], variants_at(ts, self.index()));
            }
        }
        proof {
            let vs = variants@.map_values(|x: EnumVariant| variant_view(x));
            assert(vs + Seq::<VariantV>::empty() =~= vs);
        }
        Ok(variants)
    }

    /// Parses an enum after its `enum`: name, generic parameters and
    /// variants up to `end`; a variant is a name, optionally followed by
    /// types in parentheses or fields in braces.
    fn parse_enum(&mut self) -> (r: Result<AstNodeKind>)
        ensures
            final(self).moved_on(*old(self)),
            r is Ok ==> final(self).index() > old(self).index(),
            parsed_item(r, final(self).index(), enum_at(old(self).tokens(), old(self).index())),
    {
        let name = self.consume_identifier()?;
        let generic_params = self.parse_optional_generic_params()?;
        let variants = self.parse_variants()?;
        self.consume_type(TokenType::End)?;
        Ok(AstNodeKind::Enum { name, generic_params, variants })
    }

    /// Parses the parameters of a method signature after its `(`, up to and
    /// including the `)`: `self` or `name: type`.
    fn parse_method_params(&mut self) -> (r: Result<Vec<MethodParam>>)
        ensures
            final(self).moved_on(*old(self)),
            r is Ok ==> final(self).index() > old(self).index(),
            match method_params_at(old(self).tokens(), old(self).index()) {
                Ok((ps, k)) => (r matches Ok(v) && v@.map_values(|p: MethodParam| method_param_view(p)) == ps
                    && final(self).index() == k),
                Err(m) => (r matches Err(e) && e.message@ == m),
            },
    {
        proof {
            use_type_invariant(&*self);
        }
        let ghost ts = self.tokens();
        let ghost start = self.index();
        let mut args: Vec<MethodParam> = Vec::new();
        if !self.check_type(TokenType::RParen) {
            proof {
                assert(args@.map_values(|p: MethodParam| method_param_view(p)) =~= Seq::<MethodParamV>::empty());
                crate::parser::expr_grammar::lemma_prepend_empty(method_param_items_at(ts, start));
            }
            loop
                invariant_except_break
                    self.moved_on(*old(self)),
                    self.tokens() == ts,
                    start == old(self).index(),
                    tok(ts, start) != Some(TokenTypeV::Plain(TokenType::RParen)),
                    method_param_items_at(ts, start) == prepend(
                        args@.map_values(|p: MethodParam| method_param_view(p)),
                        method_param_items_at(ts, self.index()),
                    ),
                ensures
                    self.moved_on(*old(self)),
                    self.tokens() == ts,
                    tok(ts, start) != Some(TokenTypeV::Plain(TokenType::RParen)),
                    method_param_items_at(ts, start) == Ok::<(Seq<MethodParamV>, int), Seq<char>>(
                        (args@.map_values(|p: MethodParam| method_param_view(p)), self.index()),
                    ),
                decreases self.remaining(),
            {
                let ghost acc = args@.map_values(|p: MethodParam| method_param_view(p));
                let param = if self.match_type(TokenType::SelfKeyword) {
                    MethodParam::SelfParam
                } else {
                    let name = self.consume_identifier()?;
                    self.consume_type(TokenType::Colon)?;
                    let type_annotation = self.parse_type_annotation()?;
                    MethodParam::TypedParam { name, type_annotation }
                };
                let ghost pv = method_param_view(param);
                args.push(param);
                proof {
                    assert(args@.map_values(|p: MethodParam| method_param_view(p)) =~= acc + seq![pv]);
                }
                if !self.match_type(TokenType::Comma) {
                    break;
                }
                proof {
                    crate::parser::expr_grammar::lemma_prepend_prepend(acc, seq![pv], method_param_items_at(ts, self.index()));
                }
            }
        }
        self.consume_type(TokenType::RParen)?;
        Ok(args)
    }

    /// Parses a method signature: `fn`, name, generic parameters,
    /// parameters and return type.
    fn parse_method_signature(&mut self, start: usize) -> (r: Result<MethodSignature>)
        ensures
            final(self).moved_on(*old(self)),
            r is Ok ==> final(self).index() > old(self).index(),
            match method_at(old(self).tokens(), old(self).index()) {
                Ok((mv, k)) => (r matches Ok(v) && method_view(v) == mv && final(self).index() == k),
                Err(m) => (r matches Err(e) && e.message@ == m),
            },
    {
        self.consume_type(TokenType::Fn)?;
        let method_name = self.consume_identifier()?;
        let method_generic_params = self.parse_optional_generic_params()?;
        self.consume_type(TokenType::LParen)?;
        let args = self.parse_method_params()?;
        let return_type = self.parse_optional_return_type()?;
        let end = self.peek_end(start);
        Ok(
            MethodSignature {
                name: method_name,
                args,
                return_type,
                generic_params: method_generic_params,
                meta: self.meta(start, end),
            },
        )
    }

    /// Parses the method signatures of a trait, up to `end` or the end of
    /// the tokens.
    fn parse_method_signatures(&mut self) -> (r: Result<Vec<MethodSignature>>)
        ensures
            final(self).moved_on(*old(self)),
            match methods_at(old(self).tokens(), old(self).index()) {
                Ok((ms, k)) => (r matches Ok(v) && v@.map_values(|m: MethodSignature| method_view(m)) == ms
                    && final(self).index() == k),
                Err(m) => (r matches Err(e) && e.message@ == m),
            },
    {
        proof {
            use_type_invariant(&*self);
        }
        let ghost ts = self.tokens();
        let ghost first = self.index();
        let mut methods: Vec<MethodSignature> = Vec::new();
        proof {
            assert(methods@.map_values(|m: MethodSignature| method_view(m)) =~= Seq::<MethodV>::empty());
            crate::parser::expr_grammar::lemma_prepend_empty(methods_at(ts, first));
        }
        while !self.check_type(TokenType::End) && !self.is_at_end()
            invariant
                self.moved_on(*old(self)),
                self.tokens() == ts,
                first == old(self).index(),
                methods_at(ts, first) == prepend(
                    methods@.map_values(|m: MethodSignature| method_view(m)),
                    methods_at(ts, self.index()),
                ),
            decreases self.remaining(),
        {
            let ghost acc = methods@.map_values(|m: MethodSignature| method_view(m));
            let start = match self.peek() {
                Some(t) => t.range.start,
                None => {
                    return Err(error("Expected method signature"));
                },
            };
            let method = self.parse_method_signature(start)?;
            let ghost mv = method_view(method);
            methods.push(method);
            proof {
                assert(methods@.map_values(|m: MethodSignature| method_view(m)) =~= acc + seq![mv]);
                crate::parser::expr_grammar::lemma_prepend_prepend(acc, seq![mv], methods_at(ts, self.index()));
            }
        }
        proof {
            let ms = methods@.map_values(|m: MethodSignature| method_view(m));
            assert(ms + Seq::<MethodV>::empty() =~= ms);
        }
        Ok(methods)
    }

    /// Parses a trait after its `trait`: name, generic parameters and method
    /// signatures `fn name(params) -> type` up to `end`.
    fn parse_trait(&mut self) -> (r: Result<AstNodeKind>)
        ensures
            final(self).moved_on(*old(self)),
            r is Ok ==> final(self).index() > old(self).index(),
            parsed_item(r, final(self).index(), trait_at(old(self).tokens(), old(self).index())),
    {
        let name = self.consume_identifier()?;
        let generic_params = self.parse_optional_generic_params()?;
        let methods = self.parse_method_signatures()?;
        self.consume_type(TokenType::End)?;
        Ok(AstNodeKind::Trait { name, generic_params, methods })
    }

    /// Parses the methods of an impl, functions each with its attributes,
    /// up to `end` or the end of the tokens.
    fn parse_impl_methods(&mut self) -> (r: Result<Vec<AstNode>>)
        ensures
            final(self).moved_on(*old(self)),
            match impl_methods_at(old(self).tokens(), old(self).index()) {
                Ok((ms, k)) => (r matches Ok(v) && nodes_view(v@) == ms && final(self).index() == k),
                Err(m) => (r matches Err(e) && e.message@ == m),
            },
    {
        proof {
            use_type_invariant(&*self);
        }
        let ghost ts = self.tokens();
        let ghost first = self.index();
        let mut methods: Vec<AstNode> = Vec::new();
        proof {
            assert(nodes_view(methods@) =~= Seq::<NodeV>::empty());
            crate::parser::expr_grammar::lemma_prepend_empty(impl_methods_at(ts, first));
        }
        while !self.check_type(TokenType::End) && !self.is_at_end()
            invariant
                self.moved_on(*old(self)),
                self.tokens() == ts,
                first == old(self).index(),
                impl_methods_at(ts, first) == prepend(nodes_view(methods@), impl_methods_at(ts, self.index())),
            decreases self.remaining(),
        {
            let ghost acc = nodes_view(methods@);
            let ghost before = methods@;
            let start = match self.peek() {
                Some(t) => t.range.start,
                None => {
                    return Err(error("Expected method in impl"));
                },
            };
            let attributes = self.parse_attributes()?;
            let kind = self.parse_function()?;
            let end = self.peek_end(start);
            let method = AstNode { meta: self.meta_with(start, end, attributes), kind };
            let ghost nv = node_view(method);
            proof {
                lemma_nodes_view_push(before, method);
            }
            methods.push(method);
            proof {
                crate::parser::expr_grammar::lemma_prepend_prepend(acc, seq![nv], impl_methods_at(ts, self.index()));
            }
        }
        proof {
            assert(nodes_view(methods@) + Seq::<NodeV>::empty() =~= nodes_view(methods@));
        }
        Ok(methods)
    }

    /// Parses an impl after its `impl`: an optional trait name, `for` and the
    /// type, then methods (functions with their attributes) up to `end`.
    fn parse_impl(&mut self) -> (r: Result<AstNodeKind>)
        ensures
            final(self).moved_on(*old(self)),
            r is Ok ==> final(self).index() > old(self).index(),
            parsed_item(r, final(self).index(), impl_at(old(self).tokens(), old(self).index())),
    {
        proof {
            use_type_invariant(&*self);
        }
        let trait_name = if self.check_identifier() {
            Some(self.consume_identifier()?)
        } else {
            None
        };
        let for_type = if self.match_type(TokenType::For) {
            self.parse_type_annotation()?
        } else if trait_name.is_some() {
            return Err(error("Expected 'for' after trait name in impl"));
        } else {
            return Err(error("Expected trait name or type in impl"));
        };
        let methods = self.parse_impl_methods()?;
        self.consume_type(TokenType::End)?;
        Ok(AstNodeKind::Impl { trait_name, for_type, methods })
    }

    /// Parses a constant after its `const`: name, optional type and `= value`.
    fn parse_const(&mut self) -> (r: Result<AstNodeKind>)
        ensures
            final(self).moved_on(*old(self)),
            r is Ok ==> final(self).index() > old(self).index(),
            parsed_item(r, final(self).index(), const_at(old(self).tokens(), old(self).index())),
    {
        let name = self.consume_identifier()?;
        let type_annotation = if self.match_type(TokenType::Colon) {
            Some(self.parse_type_annotation()?)
        } else {
            None
        };
        self.consume_type(TokenType::Assign)?;
        let value = self.parse_expression()?;
        Ok(AstNodeKind::Const { name, type_annotation, value })
    }

    /// Parses an extern function after its `extern`: `fn`, name, parameters
    /// and optional return type.
    fn parse_extern(&mut self) -> (r: Result<AstNodeKind>)
        ensures
            final(self).moved_on(*old(self)),
            r is Ok ==> final(self).index() > old(self).index(),
            parsed_item(r, final(self).index(), extern_at(old(self).tokens(), old(self).index())),
    {
        self.consume_type(TokenType::Fn)?;
        let name = self.consume_identifier()?;
        self.consume_type(TokenType::LParen)?;
        let args = self.parse_function_params()?;
        let return_type = self.parse_optional_return_type()?;
        Ok(AstNodeKind::Extern { name, args, return_type })
    }

    /// Parses the names of an import after its `{`: `name` or `name as
    /// alias`, separated by commas.
    fn parse_import_items(&mut self) -> (r: Result<Vec<ImportItem>>)
        ensures
            final(self).moved_on(*old(self)),
            match import_items_at(old(self).tokens(), old(self).index()) {
                Ok((its, k)) => (r matches Ok(v) && v@.map_values(|it: ImportItem| import_item_view(it)) == its
                    && final(self).index() == k),
                Err(m) => (r matches Err(e) && e.message@ == m),
            },
    {
        proof {
            use_type_invariant(&*self);
        }
        let ghost ts = self.tokens();
        let ghost start = self.index();
        let mut import_items: Vec<ImportItem> = Vec::new();
        proof {
            assert(import_items@.map_values(|it: ImportItem| import_item_view(it)) =~= Seq::<
                (Seq<char>, Option<Seq<char>>),
            >::empty());
            crate::parser::expr_grammar::lemma_prepend_empty(import_items_at(ts, start));
        }
        loop
            invariant_except_break
                self.moved_on(*old(self)),
                self.tokens() == ts,
                start == old(self).index(),
                import_items_at(ts, start) == prepend(
                    import_items@.map_values(|it: ImportItem| import_item_view(it)),
                    import_items_at(ts, self.index()),
                ),
            ensures
                self.moved_on(*old(self)),
                import_items_at(ts, start) == Ok::<(Seq<(Seq<char>, Option<Seq<char>>)>, int), Seq<char>>(
                    (import_items@.map_values(|it: ImportItem| import_item_view(it)), self.index()),
                ),
            decreases self.remaining(),
        {
            let ghost acc = import_items@.map_values(|it: ImportItem| import_item_view(it));
            let name = self.consume_identifier()?;
            let alias = if self.match_type(TokenType::As) {
                Some(self.consume_identifier()?)
            } else {
                None
            };
            let item = ImportItem { name, alias };
            let ghost iv = import_item_view(item);
            import_items.push(item);
            proof {
                assert(import_items@.map_values(|it: ImportItem| import_item_view(it)) =~= acc + seq![iv]);
            }
            if !self.match_type(TokenType::Comma) {
                break;
            }
            proof {
                crate::parser::expr_grammar::lemma_prepend_prepend(acc, seq![iv], import_items_at(ts, self.index()));
            }
        }
        Ok(import_items)
    }

    /// Parses an import after its `import`: a path string, optionally
    /// followed by `.{name, name as alias, ...}`.
    fn parse_import(&mut self) -> (r: Result<AstNodeKind>)
        ensures
            final(self).moved_on(*old(self)),
            r is Ok ==> final(self).index() > old(self).index(),
            parsed_item(r, final(self).index(), import_at(old(self).tokens(), old(self).index())),
    {
        proof {
            use_type_invariant(&*self);
        }
        let token = self.consume()?;
        let path = match token.type_ {
            TokenType::Str(s) => s,
            other => {
                let mut message = owned("Expected string literal for import path, found ");
                push_token_text(&mut message, &other);
                return Err(ParseError { message, range: None });
            },
        };
        let items = if self.match_type(TokenType::Dot) {
            self.consume_type(TokenType::LBrace)?;
            let import_items = if !self.check_type(TokenType::RBrace) {
                self.parse_import_items()?
            } else {
                let none: Vec<ImportItem> = Vec::new();
                proof {
                    assert(none@.map_values(|it: ImportItem| import_item_view(it)) =~= Seq::<
                        (Seq<char>, Option<Seq<char>>),
                    >::empty());
                }
                none
            };
            self.consume_type(TokenType::RBrace)?;
            import_items
        } else {
            let none: Vec<ImportItem> = Vec::new();
            proof {
                assert(none@.map_values(|it: ImportItem| import_item_view(it)) =~= Seq::<
                    (Seq<char>, Option<Seq<char>>),
                >::empty());
            }
            none
        };
        Ok(AstNodeKind::Import { path, items })
    }
}

} // verus!
