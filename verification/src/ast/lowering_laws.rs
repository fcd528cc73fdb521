//! How source forms lower: which operand becomes which part.
use vstd::prelude::*;
use crate::ast::grammar;
use crate::ast::surface::{DocumentId, Spanned, SyntaxCategory, Visibility};
use crate::ast::view::{
    AnnotationKindView, AnnotationView, AstErrorView, ExprFieldView, ExprKindView, ExprView, ImplItemView,
    LiteralView, MacroExprKindView, MacroExprView, MacroParameterView, MatchCaseView, MethodBindingView, NameView,
    ParameterView, PatternFieldView, PatternKindView, PatternView, TestMetaView, TopLevelView, TypeExprKindView,
    TypeExprView, TypeMemberView, TypeParameterView,
};
use crate::syntax::{self, AtomView, NodeKindView, NodeView};

verus! {

/// Whether a node is a list that starts with a word.
pub open spec fn is_form(node: NodeView, word: Seq<char>) -> bool {
    &&& node.kind is List
    &&& syntax::items(node).len() > 0
    &&& syntax::items(node)[0].kind == NodeKindView::Atom(AtomView::Symbol(word))
}

/// What stands at a place of a list, its head at zero.
pub open spec fn operand(node: NodeView, index: int) -> NodeView {
    syntax::items(node)[index]
}

/// How many operands a list has besides its head.
pub open spec fn operands(node: NodeView) -> int {
    syntax::items(node).len() - 1
}

// Words.

/// The words of expression forms differ from each other.
proof fn lemma_expression_words()
    ensures
        "do"@ != "let"@,
        "do"@ != "let-as"@,
        "let"@ != "let-as"@,
        "do"@ != "set"@,
        "let"@ != "set"@,
        "let-as"@ != "set"@,
        "do"@ != "return"@,
        "let"@ != "return"@,
        "let-as"@ != "return"@,
        "set"@ != "return"@,
        "do"@ != "if"@,
        "let"@ != "if"@,
        "let-as"@ != "if"@,
        "set"@ != "if"@,
        "return"@ != "if"@,
        "do"@ != "while"@,
        "let"@ != "while"@,
        "let-as"@ != "while"@,
        "set"@ != "while"@,
        "return"@ != "while"@,
        "if"@ != "while"@,
        "do"@ != "for"@,
        "let"@ != "for"@,
        "let-as"@ != "for"@,
        "set"@ != "for"@,
        "return"@ != "for"@,
        "if"@ != "for"@,
        "while"@ != "for"@,
        "do"@ != "match"@,
        "let"@ != "match"@,
        "let-as"@ != "match"@,
        "set"@ != "match"@,
        "return"@ != "match"@,
        "if"@ != "match"@,
        "while"@ != "match"@,
        "for"@ != "match"@,
        "do"@ != "break"@,
        "let"@ != "break"@,
        "let-as"@ != "break"@,
        "set"@ != "break"@,
        "return"@ != "break"@,
        "if"@ != "break"@,
        "while"@ != "break"@,
        "for"@ != "break"@,
        "match"@ != "break"@,
        "do"@ != "continue"@,
        "let"@ != "continue"@,
        "let-as"@ != "continue"@,
        "set"@ != "continue"@,
        "return"@ != "continue"@,
        "if"@ != "continue"@,
        "while"@ != "continue"@,
        "for"@ != "continue"@,
        "match"@ != "continue"@,
        "break"@ != "continue"@,
        "do"@ != "record"@,
        "let"@ != "record"@,
        "let-as"@ != "record"@,
        "set"@ != "record"@,
        "return"@ != "record"@,
        "if"@ != "record"@,
        "while"@ != "record"@,
        "for"@ != "record"@,
        "match"@ != "record"@,
        "break"@ != "record"@,
        "continue"@ != "record"@,
        "do"@ != "tuple"@,
        "let"@ != "tuple"@,
        "let-as"@ != "tuple"@,
        "set"@ != "tuple"@,
        "return"@ != "tuple"@,
        "if"@ != "tuple"@,
        "while"@ != "tuple"@,
        "for"@ != "tuple"@,
        "match"@ != "tuple"@,
        "break"@ != "tuple"@,
        "continue"@ != "tuple"@,
        "record"@ != "tuple"@,
        "do"@ != "array"@,
        "let"@ != "array"@,
        "let-as"@ != "array"@,
        "set"@ != "array"@,
        "return"@ != "array"@,
        "if"@ != "array"@,
        "while"@ != "array"@,
        "for"@ != "array"@,
        "match"@ != "array"@,
        "break"@ != "array"@,
        "continue"@ != "array"@,
        "record"@ != "array"@,
        "tuple"@ != "array"@,
        "do"@ != "map"@,
        "let"@ != "map"@,
        "let-as"@ != "map"@,
        "set"@ != "map"@,
        "return"@ != "map"@,
        "if"@ != "map"@,
        "while"@ != "map"@,
        "for"@ != "map"@,
        "match"@ != "map"@,
        "break"@ != "map"@,
        "continue"@ != "map"@,
        "record"@ != "map"@,
        "tuple"@ != "map"@,
        "array"@ != "map"@,
        "do"@ != "mut"@,
        "let"@ != "mut"@,
        "let-as"@ != "mut"@,
        "set"@ != "mut"@,
        "return"@ != "mut"@,
        "if"@ != "mut"@,
        "while"@ != "mut"@,
        "for"@ != "mut"@,
        "match"@ != "mut"@,
        "break"@ != "mut"@,
        "continue"@ != "mut"@,
        "record"@ != "mut"@,
        "tuple"@ != "mut"@,
        "array"@ != "mut"@,
        "map"@ != "mut"@,
        "do"@ != "ref"@,
        "let"@ != "ref"@,
        "let-as"@ != "ref"@,
        "set"@ != "ref"@,
        "return"@ != "ref"@,
        "if"@ != "ref"@,
        "while"@ != "ref"@,
        "for"@ != "ref"@,
        "match"@ != "ref"@,
        "break"@ != "ref"@,
        "continue"@ != "ref"@,
        "record"@ != "ref"@,
        "tuple"@ != "ref"@,
        "array"@ != "ref"@,
        "map"@ != "ref"@,
        "mut"@ != "ref"@,
        "do"@ != "range"@,
        "let"@ != "range"@,
        "let-as"@ != "range"@,
        "set"@ != "range"@,
        "return"@ != "range"@,
        "if"@ != "range"@,
        "while"@ != "range"@,
        "for"@ != "range"@,
        "match"@ != "range"@,
        "break"@ != "range"@,
        "continue"@ != "range"@,
        "record"@ != "range"@,
        "tuple"@ != "range"@,
        "array"@ != "range"@,
        "map"@ != "range"@,
        "mut"@ != "range"@,
        "ref"@ != "range"@,
        "do"@ != "convert"@,
        "let"@ != "convert"@,
        "let-as"@ != "convert"@,
        "set"@ != "convert"@,
        "return"@ != "convert"@,
        "if"@ != "convert"@,
        "while"@ != "convert"@,
        "for"@ != "convert"@,
        "match"@ != "convert"@,
        "break"@ != "convert"@,
        "continue"@ != "convert"@,
        "record"@ != "convert"@,
        "tuple"@ != "convert"@,
        "array"@ != "convert"@,
        "map"@ != "convert"@,
        "mut"@ != "convert"@,
        "ref"@ != "convert"@,
        "range"@ != "convert"@,
        "do"@ != "cast"@,
        "let"@ != "cast"@,
        "let-as"@ != "cast"@,
        "set"@ != "cast"@,
        "return"@ != "cast"@,
        "if"@ != "cast"@,
        "while"@ != "cast"@,
        "for"@ != "cast"@,
        "match"@ != "cast"@,
        "break"@ != "cast"@,
        "continue"@ != "cast"@,
        "record"@ != "cast"@,
        "tuple"@ != "cast"@,
        "array"@ != "cast"@,
        "map"@ != "cast"@,
        "mut"@ != "cast"@,
        "ref"@ != "cast"@,
        "range"@ != "cast"@,
        "convert"@ != "cast"@,
        "do"@ != "task"@,
        "let"@ != "task"@,
        "let-as"@ != "task"@,
        "set"@ != "task"@,
        "return"@ != "task"@,
        "if"@ != "task"@,
        "while"@ != "task"@,
        "for"@ != "task"@,
        "match"@ != "task"@,
        "break"@ != "task"@,
        "continue"@ != "task"@,
        "record"@ != "task"@,
        "tuple"@ != "task"@,
        "array"@ != "task"@,
        "map"@ != "task"@,
        "mut"@ != "task"@,
        "ref"@ != "task"@,
        "range"@ != "task"@,
        "convert"@ != "task"@,
        "cast"@ != "task"@,
        "do"@ != "spawn"@,
        "let"@ != "spawn"@,
        "let-as"@ != "spawn"@,
        "set"@ != "spawn"@,
        "return"@ != "spawn"@,
        "if"@ != "spawn"@,
        "while"@ != "spawn"@,
        "for"@ != "spawn"@,
        "match"@ != "spawn"@,
        "break"@ != "spawn"@,
        "continue"@ != "spawn"@,
        "record"@ != "spawn"@,
        "tuple"@ != "spawn"@,
        "array"@ != "spawn"@,
        "map"@ != "spawn"@,
        "mut"@ != "spawn"@,
        "ref"@ != "spawn"@,
        "range"@ != "spawn"@,
        "convert"@ != "spawn"@,
        "cast"@ != "spawn"@,
        "task"@ != "spawn"@,
        "do"@ != "join"@,
        "let"@ != "join"@,
        "let-as"@ != "join"@,
        "set"@ != "join"@,
        "return"@ != "join"@,
        "if"@ != "join"@,
        "while"@ != "join"@,
        "for"@ != "join"@,
        "match"@ != "join"@,
        "break"@ != "join"@,
        "continue"@ != "join"@,
        "record"@ != "join"@,
        "tuple"@ != "join"@,
        "array"@ != "join"@,
        "map"@ != "join"@,
        "mut"@ != "join"@,
        "ref"@ != "join"@,
        "range"@ != "join"@,
        "convert"@ != "join"@,
        "cast"@ != "join"@,
        "task"@ != "join"@,
        "spawn"@ != "join"@,
{
    reveal_strlit("do");
    reveal_strlit("let");
    reveal_strlit("let-as");
    reveal_strlit("set");
    reveal_strlit("return");
    reveal_strlit("if");
    reveal_strlit("while");
    reveal_strlit("for");
    reveal_strlit("match");
    reveal_strlit("break");
    reveal_strlit("continue");
    reveal_strlit("record");
    reveal_strlit("tuple");
    reveal_strlit("array");
    reveal_strlit("map");
    reveal_strlit("mut");
    reveal_strlit("ref");
    reveal_strlit("range");
    reveal_strlit("convert");
    reveal_strlit("cast");
    reveal_strlit("task");
    reveal_strlit("spawn");
    reveal_strlit("join");
    assert("do"@.len() == 2);
    assert("let"@.len() == 3);
    assert("let-as"@.len() == 6);
    assert("set"@.len() == 3);
    assert("return"@.len() == 6);
    assert("if"@.len() == 2);
    assert("while"@.len() == 5);
    assert("for"@.len() == 3);
    assert("match"@.len() == 5);
    assert("break"@.len() == 5);
    assert("continue"@.len() == 8);
    assert("record"@.len() == 6);
    assert("tuple"@.len() == 5);
    assert("array"@.len() == 5);
    assert("map"@.len() == 3);
    assert("mut"@.len() == 3);
    assert("ref"@.len() == 3);
    assert("range"@.len() == 5);
    assert("convert"@.len() == 7);
    assert("cast"@.len() == 4);
    assert("task"@.len() == 4);
    assert("spawn"@.len() == 5);
    assert("join"@.len() == 4);
    assert("let"@[0] == 'l' && "set"@[0] == 's');
    assert("let-as"@[0] == 'l' && "return"@[0] == 'r');
    assert("do"@[0] == 'd' && "if"@[0] == 'i');
    assert("let"@[0] == 'l' && "for"@[0] == 'f');
    assert("set"@[0] == 's' && "for"@[0] == 'f');
    assert("while"@[0] == 'w' && "match"@[0] == 'm');
    assert("while"@[0] == 'w' && "break"@[0] == 'b');
    assert("match"@[0] == 'm' && "break"@[0] == 'b');
    assert("let-as"@[0] == 'l' && "record"@[0] == 'r');
    assert("return"@[2] == 't' && "record"@[2] == 'c');
    assert("while"@[0] == 'w' && "tuple"@[0] == 't');
    assert("match"@[0] == 'm' && "tuple"@[0] == 't');
    assert("break"@[0] == 'b' && "tuple"@[0] == 't');
    assert("while"@[0] == 'w' && "array"@[0] == 'a');
    assert("match"@[0] == 'm' && "array"@[0] == 'a');
    assert("break"@[0] == 'b' && "array"@[0] == 'a');
    assert("tuple"@[0] == 't' && "array"@[0] == 'a');
    assert("let"@[0] == 'l' && "map"@[0] == 'm');
    assert("set"@[0] == 's' && "map"@[0] == 'm');
    assert("for"@[0] == 'f' && "map"@[0] == 'm');
    assert("let"@[0] == 'l' && "mut"@[0] == 'm');
    assert("set"@[0] == 's' && "mut"@[0] == 'm');
    assert("for"@[0] == 'f' && "mut"@[0] == 'm');
    assert("map"@[1] == 'a' && "mut"@[1] == 'u');
    assert("let"@[0] == 'l' && "ref"@[0] == 'r');
    assert("set"@[0] == 's' && "ref"@[0] == 'r');
    assert("for"@[0] == 'f' && "ref"@[0] == 'r');
    assert("map"@[0] == 'm' && "ref"@[0] == 'r');
    assert("mut"@[0] == 'm' && "ref"@[0] == 'r');
    assert("while"@[0] == 'w' && "range"@[0] == 'r');
    assert("match"@[0] == 'm' && "range"@[0] == 'r');
    assert("break"@[0] == 'b' && "range"@[0] == 'r');
    assert("tuple"@[0] == 't' && "range"@[0] == 'r');
    assert("array"@[0] == 'a' && "range"@[0] == 'r');
    assert("cast"@[0] == 'c' && "task"@[0] == 't');
    assert("while"@[0] == 'w' && "spawn"@[0] == 's');
    assert("match"@[0] == 'm' && "spawn"@[0] == 's');
    assert("break"@[0] == 'b' && "spawn"@[0] == 's');
    assert("tuple"@[0] == 't' && "spawn"@[0] == 's');
    assert("array"@[0] == 'a' && "spawn"@[0] == 's');
    assert("range"@[0] == 'r' && "spawn"@[0] == 's');
    assert("cast"@[0] == 'c' && "join"@[0] == 'j');
    assert("task"@[0] == 't' && "join"@[0] == 'j');
}

/// The words of type forms differ from each other.
proof fn lemma_type_words()
    ensures
        "record"@ != "tuple"@,
        "record"@ != "array"@,
        "tuple"@ != "array"@,
        "record"@ != "map"@,
        "tuple"@ != "map"@,
        "array"@ != "map"@,
        "record"@ != "union"@,
        "tuple"@ != "union"@,
        "array"@ != "union"@,
        "map"@ != "union"@,
        "record"@ != "enum"@,
        "tuple"@ != "enum"@,
        "array"@ != "enum"@,
        "map"@ != "enum"@,
        "union"@ != "enum"@,
        "record"@ != "interface"@,
        "tuple"@ != "interface"@,
        "array"@ != "interface"@,
        "map"@ != "interface"@,
        "union"@ != "interface"@,
        "enum"@ != "interface"@,
        "record"@ != "fn-type"@,
        "tuple"@ != "fn-type"@,
        "array"@ != "fn-type"@,
        "map"@ != "fn-type"@,
        "union"@ != "fn-type"@,
        "enum"@ != "fn-type"@,
        "interface"@ != "fn-type"@,
        "record"@ != "newtype"@,
        "tuple"@ != "newtype"@,
        "array"@ != "newtype"@,
        "map"@ != "newtype"@,
        "union"@ != "newtype"@,
        "enum"@ != "newtype"@,
        "interface"@ != "newtype"@,
        "fn-type"@ != "newtype"@,
        "record"@ != "mut"@,
        "tuple"@ != "mut"@,
        "array"@ != "mut"@,
        "map"@ != "mut"@,
        "union"@ != "mut"@,
        "enum"@ != "mut"@,
        "interface"@ != "mut"@,
        "fn-type"@ != "mut"@,
        "newtype"@ != "mut"@,
        "record"@ != "ref"@,
        "tuple"@ != "ref"@,
        "array"@ != "ref"@,
        "map"@ != "ref"@,
        "union"@ != "ref"@,
        "enum"@ != "ref"@,
        "interface"@ != "ref"@,
        "fn-type"@ != "ref"@,
        "newtype"@ != "ref"@,
        "mut"@ != "ref"@,
        "record"@ != "mut-ref"@,
        "tuple"@ != "mut-ref"@,
        "array"@ != "mut-ref"@,
        "map"@ != "mut-ref"@,
        "union"@ != "mut-ref"@,
        "enum"@ != "mut-ref"@,
        "interface"@ != "mut-ref"@,
        "fn-type"@ != "mut-ref"@,
        "newtype"@ != "mut-ref"@,
        "mut"@ != "mut-ref"@,
        "ref"@ != "mut-ref"@,
        "record"@ != "intersect"@,
        "tuple"@ != "intersect"@,
        "array"@ != "intersect"@,
        "map"@ != "intersect"@,
        "union"@ != "intersect"@,
        "enum"@ != "intersect"@,
        "interface"@ != "intersect"@,
        "fn-type"@ != "intersect"@,
        "newtype"@ != "intersect"@,
        "mut"@ != "intersect"@,
        "ref"@ != "intersect"@,
        "mut-ref"@ != "intersect"@,
        "record"@ != "capability"@,
        "tuple"@ != "capability"@,
        "array"@ != "capability"@,
        "map"@ != "capability"@,
        "union"@ != "capability"@,
        "enum"@ != "capability"@,
        "interface"@ != "capability"@,
        "fn-type"@ != "capability"@,
        "newtype"@ != "capability"@,
        "mut"@ != "capability"@,
        "ref"@ != "capability"@,
        "mut-ref"@ != "capability"@,
        "intersect"@ != "capability"@,
        "record"@ != "handle"@,
        "tuple"@ != "handle"@,
        "array"@ != "handle"@,
        "map"@ != "handle"@,
        "union"@ != "handle"@,
        "enum"@ != "handle"@,
        "interface"@ != "handle"@,
        "fn-type"@ != "handle"@,
        "newtype"@ != "handle"@,
        "mut"@ != "handle"@,
        "ref"@ != "handle"@,
        "mut-ref"@ != "handle"@,
        "intersect"@ != "handle"@,
        "capability"@ != "handle"@,
        "record"@ != "policy"@,
        "tuple"@ != "policy"@,
        "array"@ != "policy"@,
        "map"@ != "policy"@,
        "union"@ != "policy"@,
        "enum"@ != "policy"@,
        "interface"@ != "policy"@,
        "fn-type"@ != "policy"@,
        "newtype"@ != "policy"@,
        "mut"@ != "policy"@,
        "ref"@ != "policy"@,
        "mut-ref"@ != "policy"@,
        "intersect"@ != "policy"@,
        "capability"@ != "policy"@,
        "handle"@ != "policy"@,
        "record"@ != "wasm"@,
        "tuple"@ != "wasm"@,
        "array"@ != "wasm"@,
        "map"@ != "wasm"@,
        "union"@ != "wasm"@,
        "enum"@ != "wasm"@,
        "interface"@ != "wasm"@,
        "fn-type"@ != "wasm"@,
        "newtype"@ != "wasm"@,
        "mut"@ != "wasm"@,
        "ref"@ != "wasm"@,
        "mut-ref"@ != "wasm"@,
        "intersect"@ != "wasm"@,
        "capability"@ != "wasm"@,
        "handle"@ != "wasm"@,
        "policy"@ != "wasm"@,
        "record"@ != "inst"@,
        "tuple"@ != "inst"@,
        "array"@ != "inst"@,
        "map"@ != "inst"@,
        "union"@ != "inst"@,
        "enum"@ != "inst"@,
        "interface"@ != "inst"@,
        "fn-type"@ != "inst"@,
        "newtype"@ != "inst"@,
        "mut"@ != "inst"@,
        "ref"@ != "inst"@,
        "mut-ref"@ != "inst"@,
        "intersect"@ != "inst"@,
        "capability"@ != "inst"@,
        "handle"@ != "inst"@,
        "policy"@ != "inst"@,
        "wasm"@ != "inst"@,
{
    reveal_strlit("record");
    reveal_strlit("tuple");
    reveal_strlit("array");
    reveal_strlit("map");
    reveal_strlit("union");
    reveal_strlit("enum");
    reveal_strlit("interface");
    reveal_strlit("fn-type");
    reveal_strlit("newtype");
    reveal_strlit("mut");
    reveal_strlit("ref");
    reveal_strlit("mut-ref");
    reveal_strlit("intersect");
    reveal_strlit("capability");
    reveal_strlit("handle");
    reveal_strlit("policy");
    reveal_strlit("wasm");
    reveal_strlit("inst");
    assert("record"@.len() == 6);
    assert("tuple"@.len() == 5);
    assert("array"@.len() == 5);
    assert("map"@.len() == 3);
    assert("union"@.len() == 5);
    assert("enum"@.len() == 4);
    assert("interface"@.len() == 9);
    assert("fn-type"@.len() == 7);
    assert("newtype"@.len() == 7);
    assert("mut"@.len() == 3);
    assert("ref"@.len() == 3);
    assert("mut-ref"@.len() == 7);
    assert("intersect"@.len() == 9);
    assert("capability"@.len() == 10);
    assert("handle"@.len() == 6);
    assert("policy"@.len() == 6);
    assert("wasm"@.len() == 4);
    assert("inst"@.len() == 4);
    assert("tuple"@[0] == 't' && "array"@[0] == 'a');
    assert("tuple"@[0] == 't' && "union"@[0] == 'u');
    assert("array"@[0] == 'a' && "union"@[0] == 'u');
    assert("fn-type"@[0] == 'f' && "newtype"@[0] == 'n');
    assert("map"@[1] == 'a' && "mut"@[1] == 'u');
    assert("map"@[0] == 'm' && "ref"@[0] == 'r');
    assert("mut"@[0] == 'm' && "ref"@[0] == 'r');
    assert("fn-type"@[0] == 'f' && "mut-ref"@[0] == 'm');
    assert("newtype"@[0] == 'n' && "mut-ref"@[0] == 'm');
    assert("interface"@[5] == 'f' && "intersect"@[5] == 's');
    assert("record"@[0] == 'r' && "handle"@[0] == 'h');
    assert("record"@[0] == 'r' && "policy"@[0] == 'p');
    assert("handle"@[0] == 'h' && "policy"@[0] == 'p');
    assert("enum"@[0] == 'e' && "wasm"@[0] == 'w');
    assert("enum"@[0] == 'e' && "inst"@[0] == 'i');
    assert("wasm"@[0] == 'w' && "inst"@[0] == 'i');
}

/// The words of pattern forms differ from each other.
proof fn lemma_pattern_words()
    ensures
        "bind"@ != "record"@,
        "bind"@ != "tuple"@,
        "record"@ != "tuple"@,
        "bind"@ != "array"@,
        "record"@ != "array"@,
        "tuple"@ != "array"@,
        "bind"@ != "map"@,
        "record"@ != "map"@,
        "tuple"@ != "map"@,
        "array"@ != "map"@,
        "bind"@ != "newtype"@,
        "record"@ != "newtype"@,
        "tuple"@ != "newtype"@,
        "array"@ != "newtype"@,
        "map"@ != "newtype"@,
        "bind"@ != "interface"@,
        "record"@ != "interface"@,
        "tuple"@ != "interface"@,
        "array"@ != "interface"@,
        "map"@ != "interface"@,
        "newtype"@ != "interface"@,
{
    reveal_strlit("bind");
    reveal_strlit("record");
    reveal_strlit("tuple");
    reveal_strlit("array");
    reveal_strlit("map");
    reveal_strlit("newtype");
    reveal_strlit("interface");
    assert("bind"@.len() == 4);
    assert("record"@.len() == 6);
    assert("tuple"@.len() == 5);
    assert("array"@.len() == 5);
    assert("map"@.len() == 3);
    assert("newtype"@.len() == 7);
    assert("interface"@.len() == 9);
    assert("tuple"@[0] == 't' && "array"@[0] == 'a');
}

/// The words of macro forms differ from each other.
proof fn lemma_macro_words()
    ensures
        "let"@ != "if"@,
        "let"@ != "quote"@,
        "if"@ != "quote"@,
        "let"@ != "unquote"@,
        "if"@ != "unquote"@,
        "quote"@ != "unquote"@,
        "let"@ != "splice"@,
        "if"@ != "splice"@,
        "quote"@ != "splice"@,
        "unquote"@ != "splice"@,
        "let"@ != "capture"@,
        "if"@ != "capture"@,
        "quote"@ != "capture"@,
        "unquote"@ != "capture"@,
        "splice"@ != "capture"@,
{
    reveal_strlit("let");
    reveal_strlit("if");
    reveal_strlit("quote");
    reveal_strlit("unquote");
    reveal_strlit("splice");
    reveal_strlit("capture");
    assert("let"@.len() == 3);
    assert("if"@.len() == 2);
    assert("quote"@.len() == 5);
    assert("unquote"@.len() == 7);
    assert("splice"@.len() == 6);
    assert("capture"@.len() == 7);
    assert("unquote"@[0] == 'u' && "capture"@[0] == 'c');
}

/// The words of top-level forms differ from each other.
proof fn lemma_top_level_words()
    ensures
        "import"@ != "def"@,
        "import"@ != "const"@,
        "def"@ != "const"@,
        "import"@ != "fn"@,
        "def"@ != "fn"@,
        "const"@ != "fn"@,
        "import"@ != "macro"@,
        "def"@ != "macro"@,
        "const"@ != "macro"@,
        "fn"@ != "macro"@,
        "import"@ != "test"@,
        "def"@ != "test"@,
        "const"@ != "test"@,
        "fn"@ != "test"@,
        "macro"@ != "test"@,
        "import"@ != "private"@,
        "def"@ != "private"@,
        "const"@ != "private"@,
        "fn"@ != "private"@,
        "macro"@ != "private"@,
        "test"@ != "private"@,
{
    reveal_strlit("import");
    reveal_strlit("def");
    reveal_strlit("const");
    reveal_strlit("fn");
    reveal_strlit("macro");
    reveal_strlit("test");
    reveal_strlit("private");
    assert("import"@.len() == 6);
    assert("def"@.len() == 3);
    assert("const"@.len() == 5);
    assert("fn"@.len() == 2);
    assert("macro"@.len() == 5);
    assert("test"@.len() == 4);
    assert("private"@.len() == 7);
    assert("const"@[0] == 'c' && "macro"@[0] == 'm');
}

proof fn lemma_head(node: NodeView, word: Seq<char>, document: DocumentId)
    requires
        is_form(node, word),
    ensures
        grammar::head(node, document) == Ok::<NameView, AstErrorView>(
            Spanned::read(word, document, operand(node, 0).span),
        ),
        grammar::symbol(node) is None,
{
}

// Lists.

proof fn lemma_exprs(owner: NodeView, from: int, done: Seq<ExprView>, document: DocumentId)
    requires
        0 <= from <= syntax::items(owner).len(),
    ensures
        (grammar::exprs(owner, from, done, document) is Ok) == (forall|i: int|
            from <= i < syntax::items(owner).len() ==> grammar::expr(#[trigger] operand(owner, i), document) is Ok),
        grammar::exprs(owner, from, done, document) matches Ok(values) ==> {
            &&& values.len() == done.len() + syntax::items(owner).len() - from
            &&& forall|i: int| 0 <= i < done.len() ==> values[i] == done[i]
            &&& forall|i: int|
                from <= i < syntax::items(owner).len() ==> grammar::expr(#[trigger] operand(owner, i), document) == Ok::<
                    ExprView,
                    AstErrorView,
                >(values[done.len() + i - from])
        },
    decreases syntax::items(owner).len() - from,
{
    if from < syntax::items(owner).len() {
        assert(operand(owner, from) == syntax::items(owner)[from]);
        match grammar::expr(syntax::items(owner)[from], document) {
            Err(_) => {}
            Ok(value) => {
                lemma_exprs(owner, from + 1, done.push(value), document);
                if grammar::exprs(owner, from, done, document) is Ok {
                    let values = grammar::exprs(owner, from, done, document)->Ok_0;
                    assert forall|i: int| 0 <= i < done.len() implies values[i] == done[i] by {
                        assert(done.push(value)[i] == done[i]);
                    }
                    assert(done.push(value)[done.len() as int] == value);
                }
            }
        }
    }
}

proof fn lemma_expr_fields(owner: NodeView, from: int, done: Seq<ExprFieldView>, document: DocumentId)
    requires
        0 <= from <= syntax::items(owner).len(),
    ensures
        (grammar::expr_fields(owner, from, done, document) is Ok) == (forall|i: int|
            from <= i < syntax::items(owner).len() ==> grammar::expr_field(#[trigger] operand(owner, i), document) is Ok),
        grammar::expr_fields(owner, from, done, document) matches Ok(values) ==> {
            &&& values.len() == done.len() + syntax::items(owner).len() - from
            &&& forall|i: int| 0 <= i < done.len() ==> values[i] == done[i]
            &&& forall|i: int|
                from <= i < syntax::items(owner).len() ==> grammar::expr_field(#[trigger] operand(owner, i), document) == Ok::<
                    ExprFieldView,
                    AstErrorView,
                >(values[done.len() + i - from])
        },
    decreases syntax::items(owner).len() - from,
{
    if from < syntax::items(owner).len() {
        assert(operand(owner, from) == syntax::items(owner)[from]);
        match grammar::expr_field(syntax::items(owner)[from], document) {
            Err(_) => {}
            Ok(value) => {
                lemma_expr_fields(owner, from + 1, done.push(value), document);
                if grammar::expr_fields(owner, from, done, document) is Ok {
                    let values = grammar::expr_fields(owner, from, done, document)->Ok_0;
                    assert forall|i: int| 0 <= i < done.len() implies values[i] == done[i] by {
                        assert(done.push(value)[i] == done[i]);
                    }
                    assert(done.push(value)[done.len() as int] == value);
                }
            }
        }
    }
}

proof fn lemma_expr_pairs(owner: NodeView, from: int, done: Seq<(ExprView, ExprView)>, document: DocumentId)
    requires
        0 <= from <= syntax::items(owner).len(),
    ensures
        (grammar::expr_pairs(owner, from, done, document) is Ok) == (forall|i: int|
            from <= i < syntax::items(owner).len() ==> grammar::expr_pair(#[trigger] operand(owner, i), document) is Ok),
        grammar::expr_pairs(owner, from, done, document) matches Ok(values) ==> {
            &&& values.len() == done.len() + syntax::items(owner).len() - from
            &&& forall|i: int| 0 <= i < done.len() ==> values[i] == done[i]
            &&& forall|i: int|
                from <= i < syntax::items(owner).len() ==> grammar::expr_pair(#[trigger] operand(owner, i), document) == Ok::<
                    (ExprView, ExprView),
                    AstErrorView,
                >(values[done.len() + i - from])
        },
    decreases syntax::items(owner).len() - from,
{
    if from < syntax::items(owner).len() {
        assert(operand(owner, from) == syntax::items(owner)[from]);
        match grammar::expr_pair(syntax::items(owner)[from], document) {
            Err(_) => {}
            Ok(value) => {
                lemma_expr_pairs(owner, from + 1, done.push(value), document);
                if grammar::expr_pairs(owner, from, done, document) is Ok {
                    let values = grammar::expr_pairs(owner, from, done, document)->Ok_0;
                    assert forall|i: int| 0 <= i < done.len() implies values[i] == done[i] by {
                        assert(done.push(value)[i] == done[i]);
                    }
                    assert(done.push(value)[done.len() as int] == value);
                }
            }
        }
    }
}

proof fn lemma_match_cases(owner: NodeView, from: int, done: Seq<MatchCaseView>, document: DocumentId)
    requires
        0 <= from <= syntax::items(owner).len(),
    ensures
        (grammar::match_cases(owner, from, done, document) is Ok) == (forall|i: int|
            from <= i < syntax::items(owner).len() ==> grammar::match_case(#[trigger] operand(owner, i), document) is Ok),
        grammar::match_cases(owner, from, done, document) matches Ok(values) ==> {
            &&& values.len() == done.len() + syntax::items(owner).len() - from
            &&& forall|i: int| 0 <= i < done.len() ==> values[i] == done[i]
            &&& forall|i: int|
                from <= i < syntax::items(owner).len() ==> grammar::match_case(#[trigger] operand(owner, i), document) == Ok::<
                    MatchCaseView,
                    AstErrorView,
                >(values[done.len() + i - from])
        },
    decreases syntax::items(owner).len() - from,
{
    if from < syntax::items(owner).len() {
        assert(operand(owner, from) == syntax::items(owner)[from]);
        match grammar::match_case(syntax::items(owner)[from], document) {
            Err(_) => {}
            Ok(value) => {
                lemma_match_cases(owner, from + 1, done.push(value), document);
                if grammar::match_cases(owner, from, done, document) is Ok {
                    let values = grammar::match_cases(owner, from, done, document)->Ok_0;
                    assert forall|i: int| 0 <= i < done.len() implies values[i] == done[i] by {
                        assert(done.push(value)[i] == done[i]);
                    }
                    assert(done.push(value)[done.len() as int] == value);
                }
            }
        }
    }
}

proof fn lemma_type_exprs(owner: NodeView, from: int, done: Seq<TypeExprView>, document: DocumentId)
    requires
        0 <= from <= syntax::items(owner).len(),
    ensures
        (grammar::type_exprs(owner, from, done, document) is Ok) == (forall|i: int|
            from <= i < syntax::items(owner).len() ==> grammar::type_expr(#[trigger] operand(owner, i), document) is Ok),
        grammar::type_exprs(owner, from, done, document) matches Ok(values) ==> {
            &&& values.len() == done.len() + syntax::items(owner).len() - from
            &&& forall|i: int| 0 <= i < done.len() ==> values[i] == done[i]
            &&& forall|i: int|
                from <= i < syntax::items(owner).len() ==> grammar::type_expr(#[trigger] operand(owner, i), document) == Ok::<
                    TypeExprView,
                    AstErrorView,
                >(values[done.len() + i - from])
        },
    decreases syntax::items(owner).len() - from,
{
    if from < syntax::items(owner).len() {
        assert(operand(owner, from) == syntax::items(owner)[from]);
        match grammar::type_expr(syntax::items(owner)[from], document) {
            Err(_) => {}
            Ok(value) => {
                lemma_type_exprs(owner, from + 1, done.push(value), document);
                if grammar::type_exprs(owner, from, done, document) is Ok {
                    let values = grammar::type_exprs(owner, from, done, document)->Ok_0;
                    assert forall|i: int| 0 <= i < done.len() implies values[i] == done[i] by {
                        assert(done.push(value)[i] == done[i]);
                    }
                    assert(done.push(value)[done.len() as int] == value);
                }
            }
        }
    }
}

proof fn lemma_type_members(owner: NodeView, from: int, done: Seq<TypeMemberView>, document: DocumentId)
    requires
        0 <= from <= syntax::items(owner).len(),
    ensures
        (grammar::type_members(owner, from, done, document) is Ok) == (forall|i: int|
            from <= i < syntax::items(owner).len() ==> grammar::type_member(#[trigger] operand(owner, i), document) is Ok),
        grammar::type_members(owner, from, done, document) matches Ok(values) ==> {
            &&& values.len() == done.len() + syntax::items(owner).len() - from
            &&& forall|i: int| 0 <= i < done.len() ==> values[i] == done[i]
            &&& forall|i: int|
                from <= i < syntax::items(owner).len() ==> grammar::type_member(#[trigger] operand(owner, i), document) == Ok::<
                    TypeMemberView,
                    AstErrorView,
                >(values[done.len() + i - from])
        },
    decreases syntax::items(owner).len() - from,
{
    if from < syntax::items(owner).len() {
        assert(operand(owner, from) == syntax::items(owner)[from]);
        match grammar::type_member(syntax::items(owner)[from], document) {
            Err(_) => {}
            Ok(value) => {
                lemma_type_members(owner, from + 1, done.push(value), document);
                if grammar::type_members(owner, from, done, document) is Ok {
                    let values = grammar::type_members(owner, from, done, document)->Ok_0;
                    assert forall|i: int| 0 <= i < done.len() implies values[i] == done[i] by {
                        assert(done.push(value)[i] == done[i]);
                    }
                    assert(done.push(value)[done.len() as int] == value);
                }
            }
        }
    }
}

proof fn lemma_patterns(owner: NodeView, from: int, done: Seq<PatternView>, document: DocumentId)
    requires
        0 <= from <= syntax::items(owner).len(),
    ensures
        (grammar::patterns(owner, from, done, document) is Ok) == (forall|i: int|
            from <= i < syntax::items(owner).len() ==> grammar::pattern(#[trigger] operand(owner, i), document) is Ok),
        grammar::patterns(owner, from, done, document) matches Ok(values) ==> {
            &&& values.len() == done.len() + syntax::items(owner).len() - from
            &&& forall|i: int| 0 <= i < done.len() ==> values[i] == done[i]
            &&& forall|i: int|
                from <= i < syntax::items(owner).len() ==> grammar::pattern(#[trigger] operand(owner, i), document) == Ok::<
                    PatternView,
                    AstErrorView,
                >(values[done.len() + i - from])
        },
    decreases syntax::items(owner).len() - from,
{
    if from < syntax::items(owner).len() {
        assert(operand(owner, from) == syntax::items(owner)[from]);
        match grammar::pattern(syntax::items(owner)[from], document) {
            Err(_) => {}
            Ok(value) => {
                lemma_patterns(owner, from + 1, done.push(value), document);
                if grammar::patterns(owner, from, done, document) is Ok {
                    let values = grammar::patterns(owner, from, done, document)->Ok_0;
                    assert forall|i: int| 0 <= i < done.len() implies values[i] == done[i] by {
                        assert(done.push(value)[i] == done[i]);
                    }
                    assert(done.push(value)[done.len() as int] == value);
                }
            }
        }
    }
}

proof fn lemma_pattern_fields(owner: NodeView, from: int, done: Seq<PatternFieldView>, document: DocumentId)
    requires
        0 <= from <= syntax::items(owner).len(),
    ensures
        (grammar::pattern_fields(owner, from, done, document) is Ok) == (forall|i: int|
            from <= i < syntax::items(owner).len() ==> grammar::pattern_field(#[trigger] operand(owner, i), document) is Ok),
        grammar::pattern_fields(owner, from, done, document) matches Ok(values) ==> {
            &&& values.len() == done.len() + syntax::items(owner).len() - from
            &&& forall|i: int| 0 <= i < done.len() ==> values[i] == done[i]
            &&& forall|i: int|
                from <= i < syntax::items(owner).len() ==> grammar::pattern_field(#[trigger] operand(owner, i), document) == Ok::<
                    PatternFieldView,
                    AstErrorView,
                >(values[done.len() + i - from])
        },
    decreases syntax::items(owner).len() - from,
{
    if from < syntax::items(owner).len() {
        assert(operand(owner, from) == syntax::items(owner)[from]);
        match grammar::pattern_field(syntax::items(owner)[from], document) {
            Err(_) => {}
            Ok(value) => {
                lemma_pattern_fields(owner, from + 1, done.push(value), document);
                if grammar::pattern_fields(owner, from, done, document) is Ok {
                    let values = grammar::pattern_fields(owner, from, done, document)->Ok_0;
                    assert forall|i: int| 0 <= i < done.len() implies values[i] == done[i] by {
                        assert(done.push(value)[i] == done[i]);
                    }
                    assert(done.push(value)[done.len() as int] == value);
                }
            }
        }
    }
}

proof fn lemma_pattern_pairs(owner: NodeView, from: int, done: Seq<(PatternView, PatternView)>, document: DocumentId)
    requires
        0 <= from <= syntax::items(owner).len(),
    ensures
        (grammar::pattern_pairs(owner, from, done, document) is Ok) == (forall|i: int|
            from <= i < syntax::items(owner).len() ==> grammar::pattern_pair(#[trigger] operand(owner, i), document) is Ok),
        grammar::pattern_pairs(owner, from, done, document) matches Ok(values) ==> {
            &&& values.len() == done.len() + syntax::items(owner).len() - from
            &&& forall|i: int| 0 <= i < done.len() ==> values[i] == done[i]
            &&& forall|i: int|
                from <= i < syntax::items(owner).len() ==> grammar::pattern_pair(#[trigger] operand(owner, i), document) == Ok::<
                    (PatternView, PatternView),
                    AstErrorView,
                >(values[done.len() + i - from])
        },
    decreases syntax::items(owner).len() - from,
{
    if from < syntax::items(owner).len() {
        assert(operand(owner, from) == syntax::items(owner)[from]);
        match grammar::pattern_pair(syntax::items(owner)[from], document) {
            Err(_) => {}
            Ok(value) => {
                lemma_pattern_pairs(owner, from + 1, done.push(value), document);
                if grammar::pattern_pairs(owner, from, done, document) is Ok {
                    let values = grammar::pattern_pairs(owner, from, done, document)->Ok_0;
                    assert forall|i: int| 0 <= i < done.len() implies values[i] == done[i] by {
                        assert(done.push(value)[i] == done[i]);
                    }
                    assert(done.push(value)[done.len() as int] == value);
                }
            }
        }
    }
}

proof fn lemma_names(owner: NodeView, from: int, done: Seq<NameView>, document: DocumentId)
    requires
        0 <= from <= syntax::items(owner).len(),
    ensures
        (grammar::names(owner, from, done, document) is Ok) == (forall|i: int|
            from <= i < syntax::items(owner).len() ==> grammar::name(#[trigger] operand(owner, i), document) is Ok),
        grammar::names(owner, from, done, document) matches Ok(values) ==> {
            &&& values.len() == done.len() + syntax::items(owner).len() - from
            &&& forall|i: int| 0 <= i < done.len() ==> values[i] == done[i]
            &&& forall|i: int|
                from <= i < syntax::items(owner).len() ==> grammar::name(#[trigger] operand(owner, i), document) == Ok::<
                    NameView,
                    AstErrorView,
                >(values[done.len() + i - from])
        },
    decreases syntax::items(owner).len() - from,
{
    if from < syntax::items(owner).len() {
        assert(operand(owner, from) == syntax::items(owner)[from]);
        match grammar::name(syntax::items(owner)[from], document) {
            Err(_) => {}
            Ok(value) => {
                lemma_names(owner, from + 1, done.push(value), document);
                if grammar::names(owner, from, done, document) is Ok {
                    let values = grammar::names(owner, from, done, document)->Ok_0;
                    assert forall|i: int| 0 <= i < done.len() implies values[i] == done[i] by {
                        assert(done.push(value)[i] == done[i]);
                    }
                    assert(done.push(value)[done.len() as int] == value);
                }
            }
        }
    }
}

proof fn lemma_parameters_from(owner: NodeView, from: int, done: Seq<ParameterView>, document: DocumentId)
    requires
        0 <= from <= syntax::items(owner).len(),
    ensures
        (grammar::parameters_from(owner, from, done, document) is Ok) == (forall|i: int|
            from <= i < syntax::items(owner).len() ==> grammar::parameter(#[trigger] operand(owner, i), document) is Ok),
        grammar::parameters_from(owner, from, done, document) matches Ok(values) ==> {
            &&& values.len() == done.len() + syntax::items(owner).len() - from
            &&& forall|i: int| 0 <= i < done.len() ==> values[i] == done[i]
            &&& forall|i: int|
                from <= i < syntax::items(owner).len() ==> grammar::parameter(#[trigger] operand(owner, i), document) == Ok::<
                    ParameterView,
                    AstErrorView,
                >(values[done.len() + i - from])
        },
    decreases syntax::items(owner).len() - from,
{
    if from < syntax::items(owner).len() {
        assert(operand(owner, from) == syntax::items(owner)[from]);
        match grammar::parameter(syntax::items(owner)[from], document) {
            Err(_) => {}
            Ok(value) => {
                lemma_parameters_from(owner, from + 1, done.push(value), document);
                if grammar::parameters_from(owner, from, done, document) is Ok {
                    let values = grammar::parameters_from(owner, from, done, document)->Ok_0;
                    assert forall|i: int| 0 <= i < done.len() implies values[i] == done[i] by {
                        assert(done.push(value)[i] == done[i]);
                    }
                    assert(done.push(value)[done.len() as int] == value);
                }
            }
        }
    }
}

proof fn lemma_type_parameters_from(owner: NodeView, from: int, done: Seq<TypeParameterView>, document: DocumentId)
    requires
        0 <= from <= syntax::items(owner).len(),
    ensures
        (grammar::type_parameters_from(owner, from, done, document) is Ok) == (forall|i: int|
            from <= i < syntax::items(owner).len() ==> grammar::type_parameter(#[trigger] operand(owner, i), document) is Ok),
        grammar::type_parameters_from(owner, from, done, document) matches Ok(values) ==> {
            &&& values.len() == done.len() + syntax::items(owner).len() - from
            &&& forall|i: int| 0 <= i < done.len() ==> values[i] == done[i]
            &&& forall|i: int|
                from <= i < syntax::items(owner).len() ==> grammar::type_parameter(#[trigger] operand(owner, i), document) == Ok::<
                    TypeParameterView,
                    AstErrorView,
                >(values[done.len() + i - from])
        },
    decreases syntax::items(owner).len() - from,
{
    if from < syntax::items(owner).len() {
        assert(operand(owner, from) == syntax::items(owner)[from]);
        match grammar::type_parameter(syntax::items(owner)[from], document) {
            Err(_) => {}
            Ok(value) => {
                lemma_type_parameters_from(owner, from + 1, done.push(value), document);
                if grammar::type_parameters_from(owner, from, done, document) is Ok {
                    let values = grammar::type_parameters_from(owner, from, done, document)->Ok_0;
                    assert forall|i: int| 0 <= i < done.len() implies values[i] == done[i] by {
                        assert(done.push(value)[i] == done[i]);
                    }
                    assert(done.push(value)[done.len() as int] == value);
                }
            }
        }
    }
}

proof fn lemma_macro_parameters_from(owner: NodeView, from: int, done: Seq<MacroParameterView>, document: DocumentId)
    requires
        0 <= from <= syntax::items(owner).len(),
    ensures
        (grammar::macro_parameters_from(owner, from, done, document) is Ok) == (forall|i: int|
            from <= i < syntax::items(owner).len() ==> grammar::macro_parameter(#[trigger] operand(owner, i), document) is Ok),
        grammar::macro_parameters_from(owner, from, done, document) matches Ok(values) ==> {
            &&& values.len() == done.len() + syntax::items(owner).len() - from
            &&& forall|i: int| 0 <= i < done.len() ==> values[i] == done[i]
            &&& forall|i: int|
                from <= i < syntax::items(owner).len() ==> grammar::macro_parameter(#[trigger] operand(owner, i), document) == Ok::<
                    MacroParameterView,
                    AstErrorView,
                >(values[done.len() + i - from])
        },
    decreases syntax::items(owner).len() - from,
{
    if from < syntax::items(owner).len() {
        assert(operand(owner, from) == syntax::items(owner)[from]);
        match grammar::macro_parameter(syntax::items(owner)[from], document) {
            Err(_) => {}
            Ok(value) => {
                lemma_macro_parameters_from(owner, from + 1, done.push(value), document);
                if grammar::macro_parameters_from(owner, from, done, document) is Ok {
                    let values = grammar::macro_parameters_from(owner, from, done, document)->Ok_0;
                    assert forall|i: int| 0 <= i < done.len() implies values[i] == done[i] by {
                        assert(done.push(value)[i] == done[i]);
                    }
                    assert(done.push(value)[done.len() as int] == value);
                }
            }
        }
    }
}

proof fn lemma_macro_exprs(owner: NodeView, from: int, done: Seq<MacroExprView>, document: DocumentId)
    requires
        0 <= from <= syntax::items(owner).len(),
    ensures
        (grammar::macro_exprs(owner, from, done, document) is Ok) == (forall|i: int|
            from <= i < syntax::items(owner).len() ==> grammar::macro_expr(#[trigger] operand(owner, i), document) is Ok),
        grammar::macro_exprs(owner, from, done, document) matches Ok(values) ==> {
            &&& values.len() == done.len() + syntax::items(owner).len() - from
            &&& forall|i: int| 0 <= i < done.len() ==> values[i] == done[i]
            &&& forall|i: int|
                from <= i < syntax::items(owner).len() ==> grammar::macro_expr(#[trigger] operand(owner, i), document) == Ok::<
                    MacroExprView,
                    AstErrorView,
                >(values[done.len() + i - from])
        },
    decreases syntax::items(owner).len() - from,
{
    if from < syntax::items(owner).len() {
        assert(operand(owner, from) == syntax::items(owner)[from]);
        match grammar::macro_expr(syntax::items(owner)[from], document) {
            Err(_) => {}
            Ok(value) => {
                lemma_macro_exprs(owner, from + 1, done.push(value), document);
                if grammar::macro_exprs(owner, from, done, document) is Ok {
                    let values = grammar::macro_exprs(owner, from, done, document)->Ok_0;
                    assert forall|i: int| 0 <= i < done.len() implies values[i] == done[i] by {
                        assert(done.push(value)[i] == done[i]);
                    }
                    assert(done.push(value)[done.len() as int] == value);
                }
            }
        }
    }
}

/// Operands lower one by one, in the order in which they stand.
pub proof fn law_operands_lower_in_order(owner: NodeView, from: int, document: DocumentId)
    requires
        0 <= from <= syntax::items(owner).len(),
    ensures
        (grammar::exprs(owner, from, Seq::empty(), document) is Ok) == (forall|i: int|
            from <= i < syntax::items(owner).len() ==> grammar::expr(#[trigger] operand(owner, i), document) is Ok),
        grammar::exprs(owner, from, Seq::empty(), document) matches Ok(values) ==> {
            &&& values.len() == syntax::items(owner).len() - from
            &&& forall|i: int|
                from <= i < syntax::items(owner).len() ==> grammar::expr(#[trigger] operand(owner, i), document) == Ok::<
                    ExprView,
                    AstErrorView,
                >(values[i - from])
        },
{
    lemma_exprs(owner, from, Seq::empty(), document);
}

/// The fields of a record lower one by one, in the order in which they stand.
pub proof fn law_fields_lower_in_order(owner: NodeView, from: int, document: DocumentId)
    requires
        0 <= from <= syntax::items(owner).len(),
    ensures
        (grammar::expr_fields(owner, from, Seq::empty(), document) is Ok) == (forall|i: int|
            from <= i < syntax::items(owner).len() ==> grammar::expr_field(#[trigger] operand(owner, i), document) is Ok),
        grammar::expr_fields(owner, from, Seq::empty(), document) matches Ok(values) ==> {
            &&& values.len() == syntax::items(owner).len() - from
            &&& forall|i: int|
                from <= i < syntax::items(owner).len() ==> grammar::expr_field(#[trigger] operand(owner, i), document) == Ok::<
                    ExprFieldView,
                    AstErrorView,
                >(values[i - from])
        },
{
    lemma_expr_fields(owner, from, Seq::empty(), document);
}

/// The entries of a map lower one by one, in the order in which they stand.
pub proof fn law_entries_lower_in_order(owner: NodeView, from: int, document: DocumentId)
    requires
        0 <= from <= syntax::items(owner).len(),
    ensures
        (grammar::expr_pairs(owner, from, Seq::empty(), document) is Ok) == (forall|i: int|
            from <= i < syntax::items(owner).len() ==> grammar::expr_pair(#[trigger] operand(owner, i), document) is Ok),
        grammar::expr_pairs(owner, from, Seq::empty(), document) matches Ok(values) ==> {
            &&& values.len() == syntax::items(owner).len() - from
            &&& forall|i: int|
                from <= i < syntax::items(owner).len() ==> grammar::expr_pair(#[trigger] operand(owner, i), document) == Ok::<
                    (ExprView, ExprView),
                    AstErrorView,
                >(values[i - from])
        },
{
    lemma_expr_pairs(owner, from, Seq::empty(), document);
}

/// The cases of a match lower one by one, in the order in which they stand.
pub proof fn law_cases_lower_in_order(owner: NodeView, from: int, document: DocumentId)
    requires
        0 <= from <= syntax::items(owner).len(),
    ensures
        (grammar::match_cases(owner, from, Seq::empty(), document) is Ok) == (forall|i: int|
            from <= i < syntax::items(owner).len() ==> grammar::match_case(#[trigger] operand(owner, i), document) is Ok),
        grammar::match_cases(owner, from, Seq::empty(), document) matches Ok(values) ==> {
            &&& values.len() == syntax::items(owner).len() - from
            &&& forall|i: int|
                from <= i < syntax::items(owner).len() ==> grammar::match_case(#[trigger] operand(owner, i), document) == Ok::<
                    MatchCaseView,
                    AstErrorView,
                >(values[i - from])
        },
{
    lemma_match_cases(owner, from, Seq::empty(), document);
}

/// Types lower one by one, in the order in which they stand.
pub proof fn law_types_lower_in_order(owner: NodeView, from: int, document: DocumentId)
    requires
        0 <= from <= syntax::items(owner).len(),
    ensures
        (grammar::type_exprs(owner, from, Seq::empty(), document) is Ok) == (forall|i: int|
            from <= i < syntax::items(owner).len() ==> grammar::type_expr(#[trigger] operand(owner, i), document) is Ok),
        grammar::type_exprs(owner, from, Seq::empty(), document) matches Ok(values) ==> {
            &&& values.len() == syntax::items(owner).len() - from
            &&& forall|i: int|
                from <= i < syntax::items(owner).len() ==> grammar::type_expr(#[trigger] operand(owner, i), document) == Ok::<
                    TypeExprView,
                    AstErrorView,
                >(values[i - from])
        },
{
    lemma_type_exprs(owner, from, Seq::empty(), document);
}

/// The members of a type lower one by one, in the order in which they stand.
pub proof fn law_members_lower_in_order(owner: NodeView, from: int, document: DocumentId)
    requires
        0 <= from <= syntax::items(owner).len(),
    ensures
        (grammar::type_members(owner, from, Seq::empty(), document) is Ok) == (forall|i: int|
            from <= i < syntax::items(owner).len() ==> grammar::type_member(#[trigger] operand(owner, i), document) is Ok),
        grammar::type_members(owner, from, Seq::empty(), document) matches Ok(values) ==> {
            &&& values.len() == syntax::items(owner).len() - from
            &&& forall|i: int|
                from <= i < syntax::items(owner).len() ==> grammar::type_member(#[trigger] operand(owner, i), document) == Ok::<
                    TypeMemberView,
                    AstErrorView,
                >(values[i - from])
        },
{
    lemma_type_members(owner, from, Seq::empty(), document);
}

/// Patterns lower one by one, in the order in which they stand.
pub proof fn law_patterns_lower_in_order(owner: NodeView, from: int, document: DocumentId)
    requires
        0 <= from <= syntax::items(owner).len(),
    ensures
        (grammar::patterns(owner, from, Seq::empty(), document) is Ok) == (forall|i: int|
            from <= i < syntax::items(owner).len() ==> grammar::pattern(#[trigger] operand(owner, i), document) is Ok),
        grammar::patterns(owner, from, Seq::empty(), document) matches Ok(values) ==> {
            &&& values.len() == syntax::items(owner).len() - from
            &&& forall|i: int|
                from <= i < syntax::items(owner).len() ==> grammar::pattern(#[trigger] operand(owner, i), document) == Ok::<
                    PatternView,
                    AstErrorView,
                >(values[i - from])
        },
{
    lemma_patterns(owner, from, Seq::empty(), document);
}

/// The fields of a record pattern lower one by one, in the order in which they stand.
pub proof fn law_pattern_fields_lower_in_order(owner: NodeView, from: int, document: DocumentId)
    requires
        0 <= from <= syntax::items(owner).len(),
    ensures
        (grammar::pattern_fields(owner, from, Seq::empty(), document) is Ok) == (forall|i: int|
            from <= i < syntax::items(owner).len() ==> grammar::pattern_field(#[trigger] operand(owner, i), document) is Ok),
        grammar::pattern_fields(owner, from, Seq::empty(), document) matches Ok(values) ==> {
            &&& values.len() == syntax::items(owner).len() - from
            &&& forall|i: int|
                from <= i < syntax::items(owner).len() ==> grammar::pattern_field(#[trigger] operand(owner, i), document) == Ok::<
                    PatternFieldView,
                    AstErrorView,
                >(values[i - from])
        },
{
    lemma_pattern_fields(owner, from, Seq::empty(), document);
}

/// The entries of a map pattern lower one by one, in the order in which they stand.
pub proof fn law_pattern_entries_lower_in_order(owner: NodeView, from: int, document: DocumentId)
    requires
        0 <= from <= syntax::items(owner).len(),
    ensures
        (grammar::pattern_pairs(owner, from, Seq::empty(), document) is Ok) == (forall|i: int|
            from <= i < syntax::items(owner).len() ==> grammar::pattern_pair(#[trigger] operand(owner, i), document) is Ok),
        grammar::pattern_pairs(owner, from, Seq::empty(), document) matches Ok(values) ==> {
            &&& values.len() == syntax::items(owner).len() - from
            &&& forall|i: int|
                from <= i < syntax::items(owner).len() ==> grammar::pattern_pair(#[trigger] operand(owner, i), document) == Ok::<
                    (PatternView, PatternView),
                    AstErrorView,
                >(values[i - from])
        },
{
    lemma_pattern_pairs(owner, from, Seq::empty(), document);
}

/// Names lower one by one, in the order in which they stand.
pub proof fn law_names_lower_in_order(owner: NodeView, from: int, document: DocumentId)
    requires
        0 <= from <= syntax::items(owner).len(),
    ensures
        (grammar::names(owner, from, Seq::empty(), document) is Ok) == (forall|i: int|
            from <= i < syntax::items(owner).len() ==> grammar::name(#[trigger] operand(owner, i), document) is Ok),
        grammar::names(owner, from, Seq::empty(), document) matches Ok(values) ==> {
            &&& values.len() == syntax::items(owner).len() - from
            &&& forall|i: int|
                from <= i < syntax::items(owner).len() ==> grammar::name(#[trigger] operand(owner, i), document) == Ok::<
                    NameView,
                    AstErrorView,
                >(values[i - from])
        },
{
    lemma_names(owner, from, Seq::empty(), document);
}

/// Parameters lower one by one, in the order in which they stand.
pub proof fn law_parameters_lower_in_order(owner: NodeView, from: int, document: DocumentId)
    requires
        0 <= from <= syntax::items(owner).len(),
    ensures
        (grammar::parameters_from(owner, from, Seq::empty(), document) is Ok) == (forall|i: int|
            from <= i < syntax::items(owner).len() ==> grammar::parameter(#[trigger] operand(owner, i), document) is Ok),
        grammar::parameters_from(owner, from, Seq::empty(), document) matches Ok(values) ==> {
            &&& values.len() == syntax::items(owner).len() - from
            &&& forall|i: int|
                from <= i < syntax::items(owner).len() ==> grammar::parameter(#[trigger] operand(owner, i), document) == Ok::<
                    ParameterView,
                    AstErrorView,
                >(values[i - from])
        },
{
    lemma_parameters_from(owner, from, Seq::empty(), document);
}

/// Type parameters lower one by one, in the order in which they stand.
pub proof fn law_type_parameters_lower_in_order(owner: NodeView, from: int, document: DocumentId)
    requires
        0 <= from <= syntax::items(owner).len(),
    ensures
        (grammar::type_parameters_from(owner, from, Seq::empty(), document) is Ok) == (forall|i: int|
            from <= i < syntax::items(owner).len() ==> grammar::type_parameter(#[trigger] operand(owner, i), document) is Ok),
        grammar::type_parameters_from(owner, from, Seq::empty(), document) matches Ok(values) ==> {
            &&& values.len() == syntax::items(owner).len() - from
            &&& forall|i: int|
                from <= i < syntax::items(owner).len() ==> grammar::type_parameter(#[trigger] operand(owner, i), document) == Ok::<
                    TypeParameterView,
                    AstErrorView,
                >(values[i - from])
        },
{
    lemma_type_parameters_from(owner, from, Seq::empty(), document);
}

/// The parameters of a macro lower one by one, in the order in which they stand.
pub proof fn law_macro_parameters_lower_in_order(owner: NodeView, from: int, document: DocumentId)
    requires
        0 <= from <= syntax::items(owner).len(),
    ensures
        (grammar::macro_parameters_from(owner, from, Seq::empty(), document) is Ok) == (forall|i: int|
            from <= i < syntax::items(owner).len() ==> grammar::macro_parameter(#[trigger] operand(owner, i), document) is Ok),
        grammar::macro_parameters_from(owner, from, Seq::empty(), document) matches Ok(values) ==> {
            &&& values.len() == syntax::items(owner).len() - from
            &&& forall|i: int|
                from <= i < syntax::items(owner).len() ==> grammar::macro_parameter(#[trigger] operand(owner, i), document) == Ok::<
                    MacroParameterView,
                    AstErrorView,
                >(values[i - from])
        },
{
    lemma_macro_parameters_from(owner, from, Seq::empty(), document);
}

/// The expressions of a macro body lower one by one, in the order in which they stand.
pub proof fn law_macro_operands_lower_in_order(owner: NodeView, from: int, document: DocumentId)
    requires
        0 <= from <= syntax::items(owner).len(),
    ensures
        (grammar::macro_exprs(owner, from, Seq::empty(), document) is Ok) == (forall|i: int|
            from <= i < syntax::items(owner).len() ==> grammar::macro_expr(#[trigger] operand(owner, i), document) is Ok),
        grammar::macro_exprs(owner, from, Seq::empty(), document) matches Ok(values) ==> {
            &&& values.len() == syntax::items(owner).len() - from
            &&& forall|i: int|
                from <= i < syntax::items(owner).len() ==> grammar::macro_expr(#[trigger] operand(owner, i), document) == Ok::<
                    MacroExprView,
                    AstErrorView,
                >(values[i - from])
        },
{
    lemma_macro_exprs(owner, from, Seq::empty(), document);
}

// Atoms.

/// A symbol lowers to a reference to its name, a literal to its value; a label is no
/// expression.
pub proof fn law_atoms_are_read(node: NodeView, document: DocumentId)
    requires
        node.kind is Atom,
    ensures
        node.kind matches NodeKindView::Atom(AtomView::Label(_)) ==> grammar::expr(node, document) is Err,
        node.kind matches NodeKindView::Atom(AtomView::Symbol(word)) ==> grammar::expr(node, document) == Ok::<
            ExprView,
            AstErrorView,
        >(Spanned::read(ExprKindView::Reference(word), document, node.span)) && grammar::type_expr(node, document)
            == Ok::<TypeExprView, AstErrorView>(Spanned::read(TypeExprKindView::Named(word), document, node.span))
            && grammar::name(node, document) == Ok::<NameView, AstErrorView>(Spanned::read(word, document, node.span)),
        node.kind matches NodeKindView::Atom(AtomView::Int(number)) ==> grammar::expr(node, document) == Ok::<
            ExprView,
            AstErrorView,
        >(Spanned::read(ExprKindView::Literal(LiteralView::Int(number)), document, node.span)),
        node.kind matches NodeKindView::Atom(AtomView::Float(bits)) ==> grammar::expr(node, document) == Ok::<
            ExprView,
            AstErrorView,
        >(Spanned::read(ExprKindView::Literal(LiteralView::Float(bits)), document, node.span)),
        node.kind matches NodeKindView::Atom(AtomView::Bool(flag)) ==> grammar::expr(node, document) == Ok::<
            ExprView,
            AstErrorView,
        >(Spanned::read(ExprKindView::Literal(LiteralView::Bool(flag)), document, node.span)),
        node.kind matches NodeKindView::Atom(AtomView::String(text)) ==> grammar::expr(node, document) == Ok::<
            ExprView,
            AstErrorView,
        >(Spanned::read(ExprKindView::Literal(LiteralView::String(text)), document, node.span)),
        node.kind matches NodeKindView::Atom(AtomView::Unit) ==> grammar::expr(node, document) == Ok::<
            ExprView,
            AstErrorView,
        >(Spanned::read(ExprKindView::Literal(LiteralView::Unit), document, node.span)),
        !(node.kind matches NodeKindView::Atom(AtomView::Symbol(_))) ==> grammar::type_expr(node, document) is Err
            && grammar::name(node, document) is Err,
{
}

/// A symbol is the pattern of a case without a payload, but for the one that matches
/// anything; a literal is the pattern of its value.
pub proof fn law_atoms_are_patterns(node: NodeView, document: DocumentId)
    requires
        node.kind is Atom,
    ensures
        node.kind matches NodeKindView::Atom(AtomView::Label(_)) ==> grammar::pattern(node, document) is Err,
        node.kind matches NodeKindView::Atom(AtomView::Symbol(word)) ==> grammar::pattern(node, document) == Ok::<
            PatternView,
            AstErrorView,
        >(
            Spanned::read(
                if word == "_"@ {
                    PatternKindView::Wildcard
                } else {
                    PatternKindView::Constructor {
                        constructor: Spanned::read(word, document, node.span),
                        arguments: Seq::empty(),
                    }
                },
                document,
                node.span,
            ),
        ),
        node.kind matches NodeKindView::Atom(AtomView::Int(number)) ==> grammar::pattern(node, document) == Ok::<
            PatternView,
            AstErrorView,
        >(Spanned::read(PatternKindView::Literal(LiteralView::Int(number)), document, node.span)),
        node.kind matches NodeKindView::Atom(AtomView::Bool(flag)) ==> grammar::pattern(node, document) == Ok::<
            PatternView,
            AstErrorView,
        >(Spanned::read(PatternKindView::Literal(LiteralView::Bool(flag)), document, node.span)),
        node.kind matches NodeKindView::Atom(AtomView::String(text)) ==> grammar::pattern(node, document) == Ok::<
            PatternView,
            AstErrorView,
        >(Spanned::read(PatternKindView::Literal(LiteralView::String(text)), document, node.span)),
        node.kind matches NodeKindView::Atom(AtomView::Float(bits)) ==> grammar::pattern(node, document) == Ok::<
            PatternView,
            AstErrorView,
        >(Spanned::read(PatternKindView::Literal(LiteralView::Float(bits)), document, node.span)),
        node.kind matches NodeKindView::Atom(AtomView::Unit) ==> grammar::pattern(node, document) == Ok::<
            PatternView,
            AstErrorView,
        >(Spanned::read(PatternKindView::Literal(LiteralView::Unit), document, node.span)),
{
}

// Parts of two.

/// A field, a member or an entry is a list of two: the name or key, then the value.
pub proof fn law_pairs_keep_their_sides(node: NodeView, document: DocumentId)
    ensures
        (grammar::expr_field(node, document) is Ok) == (node.kind is List && syntax::items(node).len() == 2
            && grammar::name(operand(node, 0), document) is Ok && grammar::expr(operand(node, 1), document) is Ok),
        grammar::expr_field(node, document) matches Ok(field) ==> grammar::name(operand(node, 0), document) == Ok::<
            NameView,
            AstErrorView,
        >(field.name) && grammar::expr(operand(node, 1), document) == Ok::<ExprView, AstErrorView>(field.value)
            && field.span == node.span,
        (grammar::expr_pair(node, document) is Ok) == (node.kind is List && syntax::items(node).len() == 2
            && grammar::expr(operand(node, 0), document) is Ok && grammar::expr(operand(node, 1), document) is Ok),
        grammar::expr_pair(node, document) matches Ok((key, value)) ==> grammar::expr(operand(node, 0), document)
            == Ok::<ExprView, AstErrorView>(key) && grammar::expr(operand(node, 1), document) == Ok::<
            ExprView,
            AstErrorView,
        >(value),
        (grammar::pattern_field(node, document) is Ok) == (node.kind is List && syntax::items(node).len() == 2
            && grammar::name(operand(node, 0), document) is Ok && grammar::pattern(operand(node, 1), document) is Ok),
        grammar::pattern_field(node, document) matches Ok(field) ==> grammar::name(operand(node, 0), document) == Ok::<
            NameView,
            AstErrorView,
        >(field.name) && grammar::pattern(operand(node, 1), document) == Ok::<PatternView, AstErrorView>(
            field.pattern,
        ) && field.span == node.span,
        (grammar::pattern_pair(node, document) is Ok) == (node.kind is List && syntax::items(node).len() == 2
            && grammar::pattern(operand(node, 0), document) is Ok && grammar::pattern(operand(node, 1), document) is Ok),
        grammar::pattern_pair(node, document) matches Ok((key, value)) ==> grammar::pattern(operand(node, 0), document)
            == Ok::<PatternView, AstErrorView>(key) && grammar::pattern(operand(node, 1), document) == Ok::<
            PatternView,
            AstErrorView,
        >(value),
        (grammar::type_member(node, document) is Ok) == (node.kind is List && syntax::items(node).len() == 2
            && grammar::name(operand(node, 0), document) is Ok && grammar::type_expr(operand(node, 1), document) is Ok),
        grammar::type_member(node, document) matches Ok(member) ==> grammar::name(operand(node, 0), document) == Ok::<
            NameView,
            AstErrorView,
        >(member.name) && grammar::type_expr(operand(node, 1), document) == Ok::<TypeExprView, AstErrorView>(member.ty)
            && member.span == node.span,
        (grammar::parameter(node, document) is Ok) == (node.kind is List && syntax::items(node).len() == 2
            && grammar::name(operand(node, 0), document) is Ok && grammar::type_expr(operand(node, 1), document) is Ok),
        grammar::parameter(node, document) matches Ok(value) ==> grammar::name(operand(node, 0), document) == Ok::<
            NameView,
            AstErrorView,
        >(value.name) && grammar::type_expr(operand(node, 1), document) == Ok::<TypeExprView, AstErrorView>(value.ty)
            && value.span == node.span,
{
}

/// A body is a `do` list, a case a `case` list of a pattern and a body, captures a
/// `captures` list of names.
pub proof fn law_bodies_cases_and_captures(node: NodeView, document: DocumentId)
    ensures
        (grammar::body(node, document) is Ok) == (is_form(node, "do"@) && forall|i: int|
            1 <= i < syntax::items(node).len() ==> grammar::expr(#[trigger] operand(node, i), document) is Ok),
        grammar::body(node, document) matches Ok(values) ==> values.len() == operands(node) && forall|i: int|
            1 <= i < syntax::items(node).len() ==> grammar::expr(#[trigger] operand(node, i), document) == Ok::<
                ExprView,
                AstErrorView,
            >(values[i - 1]),
        (grammar::match_case(node, document) is Ok) == (is_form(node, "case"@) && operands(node) == 2
            && grammar::pattern(operand(node, 1), document) is Ok && grammar::body(operand(node, 2), document) is Ok),
        grammar::match_case(node, document) matches Ok(case) ==> grammar::pattern(operand(node, 1), document) == Ok::<
            PatternView,
            AstErrorView,
        >(case.pattern) && grammar::body(operand(node, 2), document) == Ok::<Seq<ExprView>, AstErrorView>(case.body)
            && case.span == node.span,
        (grammar::captures(node, document) is Ok) == (is_form(node, "captures"@) && forall|i: int|
            1 <= i < syntax::items(node).len() ==> grammar::name(#[trigger] operand(node, i), document) is Ok),
        grammar::captures(node, document) matches Ok(values) ==> values.len() == operands(node) && forall|i: int|
            1 <= i < syntax::items(node).len() ==> grammar::name(#[trigger] operand(node, i), document) == Ok::<
                NameView,
                AstErrorView,
            >(values[i - 1]),
{
    if is_form(node, "do"@) {
        lemma_head(node, "do"@, document);
        lemma_exprs(node, 1, Seq::empty(), document);
    } else {
        lemma_other_head(node, "do"@, document);
    }
    if is_form(node, "case"@) {
        lemma_head(node, "case"@, document);
    } else {
        lemma_other_head(node, "case"@, document);
    }
    if is_form(node, "captures"@) {
        lemma_head(node, "captures"@, document);
        lemma_names(node, 1, Seq::empty(), document);
    } else {
        lemma_other_head(node, "captures"@, document);
    }
}

proof fn lemma_other_head(node: NodeView, word: Seq<char>, document: DocumentId)
    requires
        !is_form(node, word),
    ensures
        grammar::fixed_head(node, word, document) is Err,
{
    if node.kind is List && syntax::items(node).len() > 0 {
        let first = syntax::items(node)[0];
        match first.kind {
            NodeKindView::Atom(AtomView::Symbol(found)) => assert(found != word),
            _ => {}
        }
    }
}

// Expressions.

/// `let` names its first operand and binds it to the second.
pub proof fn law_let_lowers(node: NodeView, document: DocumentId)
    requires
        is_form(node, "let"@),
    ensures
        (grammar::expr(node, document) is Ok) == (operands(node) == 2 && grammar::name(operand(node, 1), document) is Ok && grammar::expr(operand(node, 2), document) is Ok),
        grammar::expr(node, document) matches Ok(value) ==> value == Spanned::read(
            ExprKindView::Let { name: grammar::name(operand(node, 1), document)->Ok_0, ty: None, value: Box::new(grammar::expr(operand(node, 2), document)->Ok_0) },
            document,
            node.span,
        ),
{
    lemma_expression_words();
    lemma_head(node, "let"@, document);
    let head = Spanned::read("let"@, document, operand(node, 0).span);
    let form = grammar::expr_form(node, head, document);
    assert(form == grammar::control_form(node, "let"@, document));
    assert(grammar::expr(node, document) == (match form {
        Err(error) => Err(error),
        Ok(value) => Ok(Spanned::read(value, document, node.span)),
    }));
}

/// `let-as` names its first operand, types it by the second and binds it to the third.
pub proof fn law_let_as_lowers(node: NodeView, document: DocumentId)
    requires
        is_form(node, "let-as"@),
    ensures
        (grammar::expr(node, document) is Ok) == (operands(node) == 3 && grammar::name(operand(node, 1), document) is Ok && grammar::type_expr(operand(node, 2), document) is Ok && grammar::expr(operand(node, 3), document) is Ok),
        grammar::expr(node, document) matches Ok(value) ==> value == Spanned::read(
            ExprKindView::Let { name: grammar::name(operand(node, 1), document)->Ok_0, ty: Some(grammar::type_expr(operand(node, 2), document)->Ok_0), value: Box::new(grammar::expr(operand(node, 3), document)->Ok_0) },
            document,
            node.span,
        ),
{
    lemma_expression_words();
    lemma_head(node, "let-as"@, document);
    let head = Spanned::read("let-as"@, document, operand(node, 0).span);
    let form = grammar::expr_form(node, head, document);
    assert(form == grammar::control_form(node, "let-as"@, document));
    assert(grammar::expr(node, document) == (match form {
        Err(error) => Err(error),
        Ok(value) => Ok(Spanned::read(value, document, node.span)),
    }));
}

/// `set` assigns its second operand to the name that is its first.
pub proof fn law_set_lowers(node: NodeView, document: DocumentId)
    requires
        is_form(node, "set"@),
    ensures
        (grammar::expr(node, document) is Ok) == (operands(node) == 2 && grammar::name(operand(node, 1), document) is Ok && grammar::expr(operand(node, 2), document) is Ok),
        grammar::expr(node, document) matches Ok(value) ==> value == Spanned::read(
            ExprKindView::Assign { name: grammar::name(operand(node, 1), document)->Ok_0, value: Box::new(grammar::expr(operand(node, 2), document)->Ok_0) },
            document,
            node.span,
        ),
{
    lemma_expression_words();
    lemma_head(node, "set"@, document);
    let head = Spanned::read("set"@, document, operand(node, 0).span);
    let form = grammar::expr_form(node, head, document);
    assert(form == grammar::control_form(node, "set"@, document));
    assert(grammar::expr(node, document) == (match form {
        Err(error) => Err(error),
        Ok(value) => Ok(Spanned::read(value, document, node.span)),
    }));
}

/// `if` tests its first operand; the second is what runs where it holds, the third what runs where it does not.
pub proof fn law_if_lowers(node: NodeView, document: DocumentId)
    requires
        is_form(node, "if"@),
    ensures
        (grammar::expr(node, document) is Ok) == (operands(node) == 3 && grammar::expr(operand(node, 1), document) is Ok && grammar::body(operand(node, 2), document) is Ok && grammar::body(operand(node, 3), document) is Ok),
        grammar::expr(node, document) matches Ok(value) ==> value == Spanned::read(
            ExprKindView::If { condition: Box::new(grammar::expr(operand(node, 1), document)->Ok_0), then_body: grammar::body(operand(node, 2), document)->Ok_0, else_body: grammar::body(operand(node, 3), document)->Ok_0 },
            document,
            node.span,
        ),
{
    lemma_expression_words();
    lemma_head(node, "if"@, document);
    let head = Spanned::read("if"@, document, operand(node, 0).span);
    let form = grammar::expr_form(node, head, document);
    assert(form == grammar::control_form(node, "if"@, document));
    assert(grammar::expr(node, document) == (match form {
        Err(error) => Err(error),
        Ok(value) => Ok(Spanned::read(value, document, node.span)),
    }));
}

/// `while` tests its first operand and repeats the second.
pub proof fn law_while_lowers(node: NodeView, document: DocumentId)
    requires
        is_form(node, "while"@),
    ensures
        (grammar::expr(node, document) is Ok) == (operands(node) == 2 && grammar::expr(operand(node, 1), document) is Ok && grammar::body(operand(node, 2), document) is Ok),
        grammar::expr(node, document) matches Ok(value) ==> value == Spanned::read(
            ExprKindView::While { condition: Box::new(grammar::expr(operand(node, 1), document)->Ok_0), body: grammar::body(operand(node, 2), document)->Ok_0 },
            document,
            node.span,
        ),
{
    lemma_expression_words();
    lemma_head(node, "while"@, document);
    let head = Spanned::read("while"@, document, operand(node, 0).span);
    let form = grammar::expr_form(node, head, document);
    assert(form == grammar::control_form(node, "while"@, document));
    assert(grammar::expr(node, document) == (match form {
        Err(error) => Err(error),
        Ok(value) => Ok(Spanned::read(value, document, node.span)),
    }));
}

/// `for` binds its first operand to the items of the second and repeats the third.
pub proof fn law_for_lowers(node: NodeView, document: DocumentId)
    requires
        is_form(node, "for"@),
    ensures
        (grammar::expr(node, document) is Ok) == (operands(node) == 3 && grammar::name(operand(node, 1), document) is Ok && grammar::expr(operand(node, 2), document) is Ok && grammar::body(operand(node, 3), document) is Ok),
        grammar::expr(node, document) matches Ok(value) ==> value == Spanned::read(
            ExprKindView::For { binding: grammar::name(operand(node, 1), document)->Ok_0, source: Box::new(grammar::expr(operand(node, 2), document)->Ok_0), body: grammar::body(operand(node, 3), document)->Ok_0 },
            document,
            node.span,
        ),
{
    lemma_expression_words();
    lemma_head(node, "for"@, document);
    let head = Spanned::read("for"@, document, operand(node, 0).span);
    let form = grammar::expr_form(node, head, document);
    assert(form == grammar::control_form(node, "for"@, document));
    assert(grammar::expr(node, document) == (match form {
        Err(error) => Err(error),
        Ok(value) => Ok(Spanned::read(value, document, node.span)),
    }));
}

/// `break` takes no operand.
pub proof fn law_break_lowers(node: NodeView, document: DocumentId)
    requires
        is_form(node, "break"@),
    ensures
        (grammar::expr(node, document) is Ok) == (operands(node) == 0),
        grammar::expr(node, document) matches Ok(value) ==> value == Spanned::read(
            ExprKindView::Break,
            document,
            node.span,
        ),
{
    lemma_expression_words();
    lemma_head(node, "break"@, document);
    let head = Spanned::read("break"@, document, operand(node, 0).span);
    let form = grammar::expr_form(node, head, document);
    assert(form == grammar::control_form(node, "break"@, document));
    assert(grammar::expr(node, document) == (match form {
        Err(error) => Err(error),
        Ok(value) => Ok(Spanned::read(value, document, node.span)),
    }));
}

/// `continue` takes no operand.
pub proof fn law_continue_lowers(node: NodeView, document: DocumentId)
    requires
        is_form(node, "continue"@),
    ensures
        (grammar::expr(node, document) is Ok) == (operands(node) == 0),
        grammar::expr(node, document) matches Ok(value) ==> value == Spanned::read(
            ExprKindView::Continue,
            document,
            node.span,
        ),
{
    lemma_expression_words();
    lemma_head(node, "continue"@, document);
    let head = Spanned::read("continue"@, document, operand(node, 0).span);
    let form = grammar::expr_form(node, head, document);
    assert(form == grammar::control_form(node, "continue"@, document));
    assert(grammar::expr(node, document) == (match form {
        Err(error) => Err(error),
        Ok(value) => Ok(Spanned::read(value, document, node.span)),
    }));
}

/// `mut` makes its operand mutable.
pub proof fn law_mut_lowers(node: NodeView, document: DocumentId)
    requires
        is_form(node, "mut"@),
    ensures
        (grammar::expr(node, document) is Ok) == (operands(node) == 1 && grammar::expr(operand(node, 1), document) is Ok),
        grammar::expr(node, document) matches Ok(value) ==> value == Spanned::read(
            ExprKindView::Mutable(Box::new(grammar::expr(operand(node, 1), document)->Ok_0)),
            document,
            node.span,
        ),
{
    lemma_expression_words();
    lemma_head(node, "mut"@, document);
    let head = Spanned::read("mut"@, document, operand(node, 0).span);
    let form = grammar::expr_form(node, head, document);
    assert(form == grammar::data_form(node, "mut"@, document));
    assert(grammar::expr(node, document) == (match form {
        Err(error) => Err(error),
        Ok(value) => Ok(Spanned::read(value, document, node.span)),
    }));
}

/// `ref` refers to its operand.
pub proof fn law_ref_lowers(node: NodeView, document: DocumentId)
    requires
        is_form(node, "ref"@),
    ensures
        (grammar::expr(node, document) is Ok) == (operands(node) == 1 && grammar::expr(operand(node, 1), document) is Ok),
        grammar::expr(node, document) matches Ok(value) ==> value == Spanned::read(
            ExprKindView::ReferenceOf(Box::new(grammar::expr(operand(node, 1), document)->Ok_0)),
            document,
            node.span,
        ),
{
    lemma_expression_words();
    lemma_head(node, "ref"@, document);
    let head = Spanned::read("ref"@, document, operand(node, 0).span);
    let form = grammar::expr_form(node, head, document);
    assert(form == grammar::data_form(node, "ref"@, document));
    assert(grammar::expr(node, document) == (match form {
        Err(error) => Err(error),
        Ok(value) => Ok(Spanned::read(value, document, node.span)),
    }));
}

/// `range` starts at its first operand, ends at the second and goes by the third.
pub proof fn law_range_lowers(node: NodeView, document: DocumentId)
    requires
        is_form(node, "range"@),
    ensures
        (grammar::expr(node, document) is Ok) == (operands(node) == 3 && grammar::expr(operand(node, 1), document) is Ok && grammar::expr(operand(node, 2), document) is Ok && grammar::expr(operand(node, 3), document) is Ok),
        grammar::expr(node, document) matches Ok(value) ==> value == Spanned::read(
            ExprKindView::Range(Box::new(grammar::expr(operand(node, 1), document)->Ok_0), Box::new(grammar::expr(operand(node, 2), document)->Ok_0), Box::new(grammar::expr(operand(node, 3), document)->Ok_0)),
            document,
            node.span,
        ),
{
    lemma_expression_words();
    lemma_head(node, "range"@, document);
    let head = Spanned::read("range"@, document, operand(node, 0).span);
    let form = grammar::expr_form(node, head, document);
    assert(form == grammar::data_form(node, "range"@, document));
    assert(grammar::expr(node, document) == (match form {
        Err(error) => Err(error),
        Ok(value) => Ok(Spanned::read(value, document, node.span)),
    }));
}

/// `convert` converts its first operand to the type that is its second, the third standing in.
pub proof fn law_convert_lowers(node: NodeView, document: DocumentId)
    requires
        is_form(node, "convert"@),
    ensures
        (grammar::expr(node, document) is Ok) == (operands(node) == 3 && grammar::expr(operand(node, 1), document) is Ok && grammar::type_expr(operand(node, 2), document) is Ok && grammar::literal_node(operand(node, 3)) is Ok),
        grammar::expr(node, document) matches Ok(value) ==> value == Spanned::read(
            ExprKindView::Convert { value: Box::new(grammar::expr(operand(node, 1), document)->Ok_0), into: grammar::type_expr(operand(node, 2), document)->Ok_0, fallback: grammar::literal_node(operand(node, 3))->Ok_0 },
            document,
            node.span,
        ),
{
    lemma_expression_words();
    lemma_head(node, "convert"@, document);
    let head = Spanned::read("convert"@, document, operand(node, 0).span);
    let form = grammar::expr_form(node, head, document);
    assert(form == grammar::data_form(node, "convert"@, document));
    assert(grammar::expr(node, document) == (match form {
        Err(error) => Err(error),
        Ok(value) => Ok(Spanned::read(value, document, node.span)),
    }));
}

/// `cast` gives its first operand the type that is its second.
pub proof fn law_cast_lowers(node: NodeView, document: DocumentId)
    requires
        is_form(node, "cast"@),
    ensures
        (grammar::expr(node, document) is Ok) == (operands(node) == 2 && grammar::expr(operand(node, 1), document) is Ok && grammar::type_expr(operand(node, 2), document) is Ok),
        grammar::expr(node, document) matches Ok(value) ==> value == Spanned::read(
            ExprKindView::Cast { value: Box::new(grammar::expr(operand(node, 1), document)->Ok_0), into: grammar::type_expr(operand(node, 2), document)->Ok_0 },
            document,
            node.span,
        ),
{
    lemma_expression_words();
    lemma_head(node, "cast"@, document);
    let head = Spanned::read("cast"@, document, operand(node, 0).span);
    let form = grammar::expr_form(node, head, document);
    assert(form == grammar::data_form(node, "cast"@, document));
    assert(grammar::expr(node, document) == (match form {
        Err(error) => Err(error),
        Ok(value) => Ok(Spanned::read(value, document, node.span)),
    }));
}

/// `task` captures what its first operand lists and runs the second.
pub proof fn law_task_lowers(node: NodeView, document: DocumentId)
    requires
        is_form(node, "task"@),
    ensures
        (grammar::expr(node, document) is Ok) == (operands(node) == 2 && grammar::captures(operand(node, 1), document) is Ok && grammar::body(operand(node, 2), document) is Ok),
        grammar::expr(node, document) matches Ok(value) ==> value == Spanned::read(
            ExprKindView::Task { captures: grammar::captures(operand(node, 1), document)->Ok_0, body: grammar::body(operand(node, 2), document)->Ok_0 },
            document,
            node.span,
        ),
{
    lemma_expression_words();
    lemma_head(node, "task"@, document);
    let head = Spanned::read("task"@, document, operand(node, 0).span);
    let form = grammar::expr_form(node, head, document);
    assert(form == grammar::task_form(node, "task"@, document));
    assert(grammar::expr(node, document) == (match form {
        Err(error) => Err(error),
        Ok(value) => Ok(Spanned::read(value, document, node.span)),
    }));
}

/// `spawn` names a handle, captures what its second operand lists and starts the third.
pub proof fn law_spawn_lowers(node: NodeView, document: DocumentId)
    requires
        is_form(node, "spawn"@),
    ensures
        (grammar::expr(node, document) is Ok) == (operands(node) == 3 && grammar::name(operand(node, 1), document) is Ok && grammar::captures(operand(node, 2), document) is Ok && grammar::expr(operand(node, 3), document) is Ok),
        grammar::expr(node, document) matches Ok(value) ==> value == Spanned::read(
            ExprKindView::Spawn { handle: grammar::name(operand(node, 1), document)->Ok_0, captures: grammar::captures(operand(node, 2), document)->Ok_0, value: Box::new(grammar::expr(operand(node, 3), document)->Ok_0) },
            document,
            node.span,
        ),
{
    lemma_expression_words();
    lemma_head(node, "spawn"@, document);
    let head = Spanned::read("spawn"@, document, operand(node, 0).span);
    let form = grammar::expr_form(node, head, document);
    assert(form == grammar::task_form(node, "spawn"@, document));
    assert(grammar::expr(node, document) == (match form {
        Err(error) => Err(error),
        Ok(value) => Ok(Spanned::read(value, document, node.span)),
    }));
}

/// `join` waits for the handle that its first operand names and binds the second.
pub proof fn law_join_lowers(node: NodeView, document: DocumentId)
    requires
        is_form(node, "join"@),
    ensures
        (grammar::expr(node, document) is Ok) == (operands(node) == 2 && grammar::name(operand(node, 1), document) is Ok && grammar::name(operand(node, 2), document) is Ok),
        grammar::expr(node, document) matches Ok(value) ==> value == Spanned::read(
            ExprKindView::Join { handle: grammar::name(operand(node, 1), document)->Ok_0, binding: grammar::name(operand(node, 2), document)->Ok_0 },
            document,
            node.span,
        ),
{
    lemma_expression_words();
    lemma_head(node, "join"@, document);
    let head = Spanned::read("join"@, document, operand(node, 0).span);
    let form = grammar::expr_form(node, head, document);
    assert(form == grammar::task_form(node, "join"@, document));
    assert(grammar::expr(node, document) == (match form {
        Err(error) => Err(error),
        Ok(value) => Ok(Spanned::read(value, document, node.span)),
    }));
}

/// `return` has one operand or none, and keeps it.
pub proof fn law_return_lowers(node: NodeView, document: DocumentId)
    requires
        is_form(node, "return"@),
    ensures
        (grammar::expr(node, document) is Ok) == (operands(node) == 0 || (operands(node) == 1 && grammar::expr(
            operand(node, 1),
            document,
        ) is Ok)),
        grammar::expr(node, document) matches Ok(value) ==> value == Spanned::read(
            ExprKindView::Return(
                if operands(node) == 0 {
                    None
                } else {
                    Some(Box::new(grammar::expr(operand(node, 1), document)->Ok_0))
                },
            ),
            document,
            node.span,
        ),
{
    lemma_expression_words();
    lemma_head(node, "return"@, document);
    let head = Spanned::read("return"@, document, operand(node, 0).span);
    let form = grammar::expr_form(node, head, document);
    assert(form == grammar::control_form(node, "return"@, document));
    assert(grammar::expr(node, document) == (match form {
        Err(error) => Err(error),
        Ok(value) => Ok(Spanned::read(value, document, node.span)),
    }));
}

/// `match` takes its first operand apart by the cases behind it, in their order.
pub proof fn law_match_lowers(node: NodeView, document: DocumentId)
    requires
        is_form(node, "match"@),
    ensures
        (grammar::expr(node, document) is Ok) == (operands(node) >= 2 && grammar::expr(operand(node, 1), document) is Ok
            && forall|i: int|
            2 <= i < syntax::items(node).len() ==> grammar::match_case(#[trigger] operand(node, i), document) is Ok),
        grammar::expr(node, document) matches Ok(value) ==> {
            &&& value == Spanned::read(value.value, document, node.span)
            &&& value.value matches ExprKindView::Match { target, cases } && grammar::expr(operand(node, 1), document)
                == Ok::<ExprView, AstErrorView>(*target) && cases.len() == operands(node) - 1 && forall|i: int|
                2 <= i < syntax::items(node).len() ==> grammar::match_case(#[trigger] operand(node, i), document) == Ok::<
                    MatchCaseView,
                    AstErrorView,
                >(cases[i - 2])
        },
{
    lemma_expression_words();
    lemma_head(node, "match"@, document);
    if operands(node) >= 2 {
        lemma_match_cases(node, 2, Seq::empty(), document);
    }
    let head = Spanned::read("match"@, document, operand(node, 0).span);
    let form = grammar::expr_form(node, head, document);
    assert(form == grammar::control_form(node, "match"@, document));
    assert(grammar::expr(node, document) == (match form {
        Err(error) => Err(error),
        Ok(value) => Ok(Spanned::read(value, document, node.span)),
    }));
}

/// `do` holds its operands in their order.
pub proof fn law_do_lowers(node: NodeView, document: DocumentId)
    requires
        is_form(node, "do"@),
    ensures
        (grammar::expr(node, document) is Ok) == (forall|i: int|
            1 <= i < syntax::items(node).len() ==> grammar::expr(#[trigger] operand(node, i), document) is Ok),
        grammar::expr(node, document) matches Ok(value) ==> {
            &&& value == Spanned::read(value.value, document, node.span)
            &&& value.value matches ExprKindView::Do(parts) && parts.len() == operands(node) && forall|i: int|
                1 <= i < syntax::items(node).len() ==> grammar::expr(#[trigger] operand(node, i), document) == Ok::<
                    ExprView,
                    AstErrorView,
                >(parts[i - 1])
        },
{
    lemma_expression_words();
    lemma_head(node, "do"@, document);
    lemma_exprs(node, 1, Seq::empty(), document);
    let head = Spanned::read("do"@, document, operand(node, 0).span);
    let form = grammar::expr_form(node, head, document);
    assert(form == grammar::control_form(node, "do"@, document));
    assert(grammar::expr(node, document) == (match form {
        Err(error) => Err(error),
        Ok(value) => Ok(Spanned::read(value, document, node.span)),
    }));
}

/// `tuple` holds its operands in their order.
pub proof fn law_tuple_lowers(node: NodeView, document: DocumentId)
    requires
        is_form(node, "tuple"@),
    ensures
        (grammar::expr(node, document) is Ok) == (forall|i: int|
            1 <= i < syntax::items(node).len() ==> grammar::expr(#[trigger] operand(node, i), document) is Ok),
        grammar::expr(node, document) matches Ok(value) ==> {
            &&& value == Spanned::read(value.value, document, node.span)
            &&& value.value matches ExprKindView::Tuple(parts) && parts.len() == operands(node) && forall|i: int|
                1 <= i < syntax::items(node).len() ==> grammar::expr(#[trigger] operand(node, i), document) == Ok::<
                    ExprView,
                    AstErrorView,
                >(parts[i - 1])
        },
{
    lemma_expression_words();
    lemma_head(node, "tuple"@, document);
    lemma_exprs(node, 1, Seq::empty(), document);
    let head = Spanned::read("tuple"@, document, operand(node, 0).span);
    let form = grammar::expr_form(node, head, document);
    assert(form == grammar::data_form(node, "tuple"@, document));
    assert(grammar::expr(node, document) == (match form {
        Err(error) => Err(error),
        Ok(value) => Ok(Spanned::read(value, document, node.span)),
    }));
}

/// `array` holds its operands in their order.
pub proof fn law_array_lowers(node: NodeView, document: DocumentId)
    requires
        is_form(node, "array"@),
    ensures
        (grammar::expr(node, document) is Ok) == (forall|i: int|
            1 <= i < syntax::items(node).len() ==> grammar::expr(#[trigger] operand(node, i), document) is Ok),
        grammar::expr(node, document) matches Ok(value) ==> {
            &&& value == Spanned::read(value.value, document, node.span)
            &&& value.value matches ExprKindView::Array(parts) && parts.len() == operands(node) && forall|i: int|
                1 <= i < syntax::items(node).len() ==> grammar::expr(#[trigger] operand(node, i), document) == Ok::<
                    ExprView,
                    AstErrorView,
                >(parts[i - 1])
        },
{
    lemma_expression_words();
    lemma_head(node, "array"@, document);
    lemma_exprs(node, 1, Seq::empty(), document);
    let head = Spanned::read("array"@, document, operand(node, 0).span);
    let form = grammar::expr_form(node, head, document);
    assert(form == grammar::data_form(node, "array"@, document));
    assert(grammar::expr(node, document) == (match form {
        Err(error) => Err(error),
        Ok(value) => Ok(Spanned::read(value, document, node.span)),
    }));
}

/// `record` holds its fields in their order.
pub proof fn law_record_lowers(node: NodeView, document: DocumentId)
    requires
        is_form(node, "record"@),
    ensures
        (grammar::expr(node, document) is Ok) == (forall|i: int|
            1 <= i < syntax::items(node).len() ==> grammar::expr_field(#[trigger] operand(node, i), document) is Ok),
        grammar::expr(node, document) matches Ok(value) ==> {
            &&& value == Spanned::read(value.value, document, node.span)
            &&& value.value matches ExprKindView::Record(parts) && parts.len() == operands(node) && forall|i: int|
                1 <= i < syntax::items(node).len() ==> grammar::expr_field(#[trigger] operand(node, i), document) == Ok::<
                    ExprFieldView,
                    AstErrorView,
                >(parts[i - 1])
        },
{
    lemma_expression_words();
    lemma_head(node, "record"@, document);
    lemma_expr_fields(node, 1, Seq::empty(), document);
    let head = Spanned::read("record"@, document, operand(node, 0).span);
    let form = grammar::expr_form(node, head, document);
    assert(form == grammar::data_form(node, "record"@, document));
    assert(grammar::expr(node, document) == (match form {
        Err(error) => Err(error),
        Ok(value) => Ok(Spanned::read(value, document, node.span)),
    }));
}

/// `map` holds its entries in their order.
pub proof fn law_map_lowers(node: NodeView, document: DocumentId)
    requires
        is_form(node, "map"@),
    ensures
        (grammar::expr(node, document) is Ok) == (forall|i: int|
            1 <= i < syntax::items(node).len() ==> grammar::expr_pair(#[trigger] operand(node, i), document) is Ok),
        grammar::expr(node, document) matches Ok(value) ==> {
            &&& value == Spanned::read(value.value, document, node.span)
            &&& value.value matches ExprKindView::Mapping(parts) && parts.len() == operands(node) && forall|i: int|
                1 <= i < syntax::items(node).len() ==> grammar::expr_pair(#[trigger] operand(node, i), document) == Ok::<
                    (ExprView, ExprView),
                    AstErrorView,
                >(parts[i - 1])
        },
{
    lemma_expression_words();
    lemma_head(node, "map"@, document);
    lemma_expr_pairs(node, 1, Seq::empty(), document);
    let head = Spanned::read("map"@, document, operand(node, 0).span);
    let form = grammar::expr_form(node, head, document);
    assert(form == grammar::data_form(node, "map"@, document));
    assert(grammar::expr(node, document) == (match form {
        Err(error) => Err(error),
        Ok(value) => Ok(Spanned::read(value, document, node.span)),
    }));
}

/// A list that starts with any other word calls what the word names, with its operands
/// in their order.
pub proof fn law_calls_lower(node: NodeView, word: Seq<char>, document: DocumentId)
    requires
        is_form(node, word),
        word != "do"@,
        word != "let"@,
        word != "let-as"@,
        word != "set"@,
        word != "return"@,
        word != "if"@,
        word != "while"@,
        word != "for"@,
        word != "match"@,
        word != "break"@,
        word != "continue"@,
        word != "record"@,
        word != "tuple"@,
        word != "array"@,
        word != "map"@,
        word != "mut"@,
        word != "ref"@,
        word != "range"@,
        word != "convert"@,
        word != "cast"@,
        word != "task"@,
        word != "spawn"@,
        word != "join"@,
    ensures
        (grammar::expr(node, document) is Ok) == (forall|i: int|
            1 <= i < syntax::items(node).len() ==> grammar::expr(#[trigger] operand(node, i), document) is Ok),
        grammar::expr(node, document) matches Ok(value) ==> {
            &&& value == Spanned::read(value.value, document, node.span)
            &&& value.value matches ExprKindView::Call { callee, arguments } && callee == Spanned::read(
                word,
                document,
                operand(node, 0).span,
            ) && arguments.len() == operands(node) && forall|i: int|
                1 <= i < syntax::items(node).len() ==> grammar::expr(#[trigger] operand(node, i), document) == Ok::<
                    ExprView,
                    AstErrorView,
                >(arguments[i - 1])
        },
{
    lemma_head(node, word, document);
    lemma_exprs(node, 1, Seq::empty(), document);
    let head = Spanned::read(word, document, operand(node, 0).span);
    let form = grammar::expr_form(node, head, document);
    assert(grammar::expr(node, document) == (match form {
        Err(error) => Err(error),
        Ok(value) => Ok(Spanned::read(value, document, node.span)),
    }));
}

// Types.

/// An array type has the type of its items.
pub proof fn law_array_types_lower(node: NodeView, document: DocumentId)
    requires
        is_form(node, "array"@),
    ensures
        (grammar::type_expr(node, document) is Ok) == (operands(node) == 1 && grammar::type_expr(operand(node, 1), document) is Ok),
        grammar::type_expr(node, document) matches Ok(value) ==> value == Spanned::read(
            TypeExprKindView::Array(Box::new(grammar::type_expr(operand(node, 1), document)->Ok_0)),
            document,
            node.span,
        ),
{
    lemma_type_words();
    lemma_head(node, "array"@, document);
    let head = Spanned::read("array"@, document, operand(node, 0).span);
    let form = grammar::type_form(node, head, document);
    assert(grammar::type_expr(node, document) == (match form {
        Err(error) => Err(error),
        Ok(value) => Ok(Spanned::read(value, document, node.span)),
    }));
}

/// A map type has the type of its keys, then that of its values.
pub proof fn law_map_types_lower(node: NodeView, document: DocumentId)
    requires
        is_form(node, "map"@),
    ensures
        (grammar::type_expr(node, document) is Ok) == (operands(node) == 2 && grammar::type_expr(operand(node, 1), document) is Ok && grammar::type_expr(operand(node, 2), document) is Ok),
        grammar::type_expr(node, document) matches Ok(value) ==> value == Spanned::read(
            TypeExprKindView::Mapping(Box::new(grammar::type_expr(operand(node, 1), document)->Ok_0), Box::new(grammar::type_expr(operand(node, 2), document)->Ok_0)),
            document,
            node.span,
        ),
{
    lemma_type_words();
    lemma_head(node, "map"@, document);
    let head = Spanned::read("map"@, document, operand(node, 0).span);
    let form = grammar::type_form(node, head, document);
    assert(grammar::type_expr(node, document) == (match form {
        Err(error) => Err(error),
        Ok(value) => Ok(Spanned::read(value, document, node.span)),
    }));
}

/// A new type holds what its operand is.
pub proof fn law_new_types_lower(node: NodeView, document: DocumentId)
    requires
        is_form(node, "newtype"@),
    ensures
        (grammar::type_expr(node, document) is Ok) == (operands(node) == 1 && grammar::type_expr(operand(node, 1), document) is Ok),
        grammar::type_expr(node, document) matches Ok(value) ==> value == Spanned::read(
            TypeExprKindView::Newtype(Box::new(grammar::type_expr(operand(node, 1), document)->Ok_0)),
            document,
            node.span,
        ),
{
    lemma_type_words();
    lemma_head(node, "newtype"@, document);
    let head = Spanned::read("newtype"@, document, operand(node, 0).span);
    let form = grammar::type_form(node, head, document);
    assert(grammar::type_expr(node, document) == (match form {
        Err(error) => Err(error),
        Ok(value) => Ok(Spanned::read(value, document, node.span)),
    }));
}

/// A mutable type holds what its operand is.
pub proof fn law_mutable_types_lower(node: NodeView, document: DocumentId)
    requires
        is_form(node, "mut"@),
    ensures
        (grammar::type_expr(node, document) is Ok) == (operands(node) == 1 && grammar::type_expr(operand(node, 1), document) is Ok),
        grammar::type_expr(node, document) matches Ok(value) ==> value == Spanned::read(
            TypeExprKindView::Mutable(Box::new(grammar::type_expr(operand(node, 1), document)->Ok_0)),
            document,
            node.span,
        ),
{
    lemma_type_words();
    lemma_head(node, "mut"@, document);
    let head = Spanned::read("mut"@, document, operand(node, 0).span);
    let form = grammar::type_form(node, head, document);
    assert(grammar::type_expr(node, document) == (match form {
        Err(error) => Err(error),
        Ok(value) => Ok(Spanned::read(value, document, node.span)),
    }));
}

/// A reference type refers to what its operand is.
pub proof fn law_reference_types_lower(node: NodeView, document: DocumentId)
    requires
        is_form(node, "ref"@),
    ensures
        (grammar::type_expr(node, document) is Ok) == (operands(node) == 1 && grammar::type_expr(operand(node, 1), document) is Ok),
        grammar::type_expr(node, document) matches Ok(value) ==> value == Spanned::read(
            TypeExprKindView::Reference(Box::new(grammar::type_expr(operand(node, 1), document)->Ok_0)),
            document,
            node.span,
        ),
{
    lemma_type_words();
    lemma_head(node, "ref"@, document);
    let head = Spanned::read("ref"@, document, operand(node, 0).span);
    let form = grammar::type_form(node, head, document);
    assert(grammar::type_expr(node, document) == (match form {
        Err(error) => Err(error),
        Ok(value) => Ok(Spanned::read(value, document, node.span)),
    }));
}

/// A mutable reference type refers to what its operand is.
pub proof fn law_mutable_reference_types_lower(node: NodeView, document: DocumentId)
    requires
        is_form(node, "mut-ref"@),
    ensures
        (grammar::type_expr(node, document) is Ok) == (operands(node) == 1 && grammar::type_expr(operand(node, 1), document) is Ok),
        grammar::type_expr(node, document) matches Ok(value) ==> value == Spanned::read(
            TypeExprKindView::MutableReference(Box::new(grammar::type_expr(operand(node, 1), document)->Ok_0)),
            document,
            node.span,
        ),
{
    lemma_type_words();
    lemma_head(node, "mut-ref"@, document);
    let head = Spanned::read("mut-ref"@, document, operand(node, 0).span);
    let form = grammar::type_form(node, head, document);
    assert(grammar::type_expr(node, document) == (match form {
        Err(error) => Err(error),
        Ok(value) => Ok(Spanned::read(value, document, node.span)),
    }));
}

/// A tuple type has the types of its items in their order.
pub proof fn law_tuple_types_lower(node: NodeView, document: DocumentId)
    requires
        is_form(node, "tuple"@),
    ensures
        (grammar::type_expr(node, document) is Ok) == (forall|i: int|
            1 <= i < syntax::items(node).len() ==> grammar::type_expr(#[trigger] operand(node, i), document) is Ok),
        grammar::type_expr(node, document) matches Ok(value) ==> {
            &&& value == Spanned::read(value.value, document, node.span)
            &&& value.value matches TypeExprKindView::Tuple(parts) && parts.len() == operands(node) && forall|i: int|
                1 <= i < syntax::items(node).len() ==> grammar::type_expr(#[trigger] operand(node, i), document) == Ok::<
                    TypeExprView,
                    AstErrorView,
                >(parts[i - 1])
        },
{
    lemma_type_words();
    lemma_head(node, "tuple"@, document);
    lemma_type_exprs(node, 1, Seq::empty(), document);
    let head = Spanned::read("tuple"@, document, operand(node, 0).span);
    let form = grammar::type_form(node, head, document);
    assert(grammar::type_expr(node, document) == (match form {
        Err(error) => Err(error),
        Ok(value) => Ok(Spanned::read(value, document, node.span)),
    }));
}

/// A union has its types in their order, and one at least.
pub proof fn law_union_types_lower(node: NodeView, document: DocumentId)
    requires
        is_form(node, "union"@),
    ensures
        (grammar::type_expr(node, document) is Ok) == (operands(node) >= 1 && forall|i: int|
            1 <= i < syntax::items(node).len() ==> grammar::type_expr(#[trigger] operand(node, i), document) is Ok),
        grammar::type_expr(node, document) matches Ok(value) ==> {
            &&& value == Spanned::read(value.value, document, node.span)
            &&& value.value matches TypeExprKindView::Union(parts) && parts.len() == operands(node) && forall|i: int|
                1 <= i < syntax::items(node).len() ==> grammar::type_expr(#[trigger] operand(node, i), document) == Ok::<
                    TypeExprView,
                    AstErrorView,
                >(parts[i - 1])
        },
{
    lemma_type_words();
    lemma_head(node, "union"@, document);
    lemma_type_exprs(node, 1, Seq::empty(), document);
    let head = Spanned::read("union"@, document, operand(node, 0).span);
    let form = grammar::type_form(node, head, document);
    assert(grammar::type_expr(node, document) == (match form {
        Err(error) => Err(error),
        Ok(value) => Ok(Spanned::read(value, document, node.span)),
    }));
}

/// An intersection has its types in their order, and one at least.
pub proof fn law_intersections_lower(node: NodeView, document: DocumentId)
    requires
        is_form(node, "intersect"@),
    ensures
        (grammar::type_expr(node, document) is Ok) == (operands(node) >= 1 && forall|i: int|
            1 <= i < syntax::items(node).len() ==> grammar::type_expr(#[trigger] operand(node, i), document) is Ok),
        grammar::type_expr(node, document) matches Ok(value) ==> {
            &&& value == Spanned::read(value.value, document, node.span)
            &&& value.value matches TypeExprKindView::Intersect(parts) && parts.len() == operands(node) && forall|i: int|
                1 <= i < syntax::items(node).len() ==> grammar::type_expr(#[trigger] operand(node, i), document) == Ok::<
                    TypeExprView,
                    AstErrorView,
                >(parts[i - 1])
        },
{
    lemma_type_words();
    lemma_head(node, "intersect"@, document);
    lemma_type_exprs(node, 1, Seq::empty(), document);
    let head = Spanned::read("intersect"@, document, operand(node, 0).span);
    let form = grammar::type_form(node, head, document);
    assert(grammar::type_expr(node, document) == (match form {
        Err(error) => Err(error),
        Ok(value) => Ok(Spanned::read(value, document, node.span)),
    }));
}

/// A record type has its members in their order.
pub proof fn law_record_types_lower(node: NodeView, document: DocumentId)
    requires
        is_form(node, "record"@),
    ensures
        (grammar::type_expr(node, document) is Ok) == (forall|i: int|
            1 <= i < syntax::items(node).len() ==> grammar::type_member(#[trigger] operand(node, i), document) is Ok),
        grammar::type_expr(node, document) matches Ok(value) ==> {
            &&& value == Spanned::read(value.value, document, node.span)
            &&& value.value matches TypeExprKindView::Record(parts) && parts.len() == operands(node) && forall|i: int|
                1 <= i < syntax::items(node).len() ==> grammar::type_member(#[trigger] operand(node, i), document) == Ok::<
                    TypeMemberView,
                    AstErrorView,
                >(parts[i - 1])
        },
{
    lemma_type_words();
    lemma_head(node, "record"@, document);
    lemma_type_members(node, 1, Seq::empty(), document);
    let head = Spanned::read("record"@, document, operand(node, 0).span);
    let form = grammar::type_form(node, head, document);
    assert(grammar::type_expr(node, document) == (match form {
        Err(error) => Err(error),
        Ok(value) => Ok(Spanned::read(value, document, node.span)),
    }));
}

/// An enum has its members in their order.
pub proof fn law_enum_types_lower(node: NodeView, document: DocumentId)
    requires
        is_form(node, "enum"@),
    ensures
        (grammar::type_expr(node, document) is Ok) == (forall|i: int|
            1 <= i < syntax::items(node).len() ==> grammar::type_member(#[trigger] operand(node, i), document) is Ok),
        grammar::type_expr(node, document) matches Ok(value) ==> {
            &&& value == Spanned::read(value.value, document, node.span)
            &&& value.value matches TypeExprKindView::Enum(parts) && parts.len() == operands(node) && forall|i: int|
                1 <= i < syntax::items(node).len() ==> grammar::type_member(#[trigger] operand(node, i), document) == Ok::<
                    TypeMemberView,
                    AstErrorView,
                >(parts[i - 1])
        },
{
    lemma_type_words();
    lemma_head(node, "enum"@, document);
    lemma_type_members(node, 1, Seq::empty(), document);
    let head = Spanned::read("enum"@, document, operand(node, 0).span);
    let form = grammar::type_form(node, head, document);
    assert(grammar::type_expr(node, document) == (match form {
        Err(error) => Err(error),
        Ok(value) => Ok(Spanned::read(value, document, node.span)),
    }));
}

/// An interface has its members in their order.
pub proof fn law_interfaces_lower(node: NodeView, document: DocumentId)
    requires
        is_form(node, "interface"@),
    ensures
        (grammar::type_expr(node, document) is Ok) == (forall|i: int|
            1 <= i < syntax::items(node).len() ==> grammar::type_member(#[trigger] operand(node, i), document) is Ok),
        grammar::type_expr(node, document) matches Ok(value) ==> {
            &&& value == Spanned::read(value.value, document, node.span)
            &&& value.value matches TypeExprKindView::Interface(parts) && parts.len() == operands(node) && forall|i: int|
                1 <= i < syntax::items(node).len() ==> grammar::type_member(#[trigger] operand(node, i), document) == Ok::<
                    TypeMemberView,
                    AstErrorView,
                >(parts[i - 1])
        },
{
    lemma_type_words();
    lemma_head(node, "interface"@, document);
    lemma_type_members(node, 1, Seq::empty(), document);
    let head = Spanned::read("interface"@, document, operand(node, 0).span);
    let form = grammar::type_form(node, head, document);
    assert(grammar::type_expr(node, document) == (match form {
        Err(error) => Err(error),
        Ok(value) => Ok(Spanned::read(value, document, node.span)),
    }));
}

/// A function type has the types of its parameters in their order, then that of its
/// result.
pub proof fn law_function_types_lower(node: NodeView, document: DocumentId)
    requires
        is_form(node, "fn-type"@),
    ensures
        (grammar::type_expr(node, document) is Ok) == (operands(node) == 2 && operand(node, 1).kind is List && (
        forall|i: int|
            0 <= i < syntax::items(operand(node, 1)).len() ==> grammar::type_expr(
                #[trigger] operand(operand(node, 1), i),
                document,
            ) is Ok) && grammar::type_expr(operand(node, 2), document) is Ok),
        grammar::type_expr(node, document) matches Ok(value) ==> {
            &&& value == Spanned::read(value.value, document, node.span)
            &&& value.value matches TypeExprKindView::Function { parameters, result } && grammar::type_expr(
                operand(node, 2),
                document,
            ) == Ok::<TypeExprView, AstErrorView>(*result) && parameters.len() == syntax::items(operand(node, 1)).len()
                && forall|i: int|
                0 <= i < parameters.len() ==> grammar::type_expr(#[trigger] operand(operand(node, 1), i), document)
                    == Ok::<TypeExprView, AstErrorView>(parameters[i])
        },
{
    lemma_type_words();
    lemma_head(node, "fn-type"@, document);
    if operands(node) == 2 {
        lemma_type_exprs(operand(node, 1), 0, Seq::empty(), document);
    }
    let head = Spanned::read("fn-type"@, document, operand(node, 0).span);
    let form = grammar::type_form(node, head, document);
    assert(grammar::type_expr(node, document) == (match form {
        Err(error) => Err(error),
        Ok(value) => Ok(Spanned::read(value, document, node.span)),
    }));
}

/// A list that starts with any other word applies what the word names to the types
/// behind it, in their order.
pub proof fn law_type_applications_lower(node: NodeView, word: Seq<char>, document: DocumentId)
    requires
        is_form(node, word),
        word != "record"@,
        word != "tuple"@,
        word != "array"@,
        word != "map"@,
        word != "union"@,
        word != "enum"@,
        word != "interface"@,
        word != "fn-type"@,
        word != "newtype"@,
        word != "mut"@,
        word != "ref"@,
        word != "mut-ref"@,
        word != "intersect"@,
        word != "capability"@,
        word != "handle"@,
        word != "policy"@,
        word != "wasm"@,
        word != "inst"@,
    ensures
        (grammar::type_expr(node, document) is Ok) == (operands(node) >= 1 && forall|i: int|
            1 <= i < syntax::items(node).len() ==> grammar::type_expr(#[trigger] operand(node, i), document) is Ok),
        grammar::type_expr(node, document) matches Ok(value) ==> {
            &&& value == Spanned::read(value.value, document, node.span)
            &&& value.value matches TypeExprKindView::Application { constructor, arguments } && constructor
                == Spanned::read(word, document, operand(node, 0).span) && arguments.len() == operands(node)
                && forall|i: int|
                1 <= i < syntax::items(node).len() ==> grammar::type_expr(#[trigger] operand(node, i), document) == Ok::<
                    TypeExprView,
                    AstErrorView,
                >(arguments[i - 1])
        },
{
    lemma_head(node, word, document);
    lemma_type_exprs(node, 1, Seq::empty(), document);
    let head = Spanned::read(word, document, operand(node, 0).span);
    let form = grammar::type_form(node, head, document);
    assert(grammar::type_expr(node, document) == (match form {
        Err(error) => Err(error),
        Ok(value) => Ok(Spanned::read(value, document, node.span)),
    }));
}

/// A type of a domain keeps its word and its arguments in their order.
pub proof fn law_domain_types_lower(node: NodeView, word: Seq<char>, document: DocumentId)
    requires
        is_form(node, word),
        word == "capability"@ || word == "handle"@ || word == "policy"@ || word == "wasm"@,
    ensures
        (grammar::type_expr(node, document) is Ok) == (forall|i: int|
            1 <= i < syntax::items(node).len() ==> grammar::type_expr(#[trigger] operand(node, i), document) is Ok),
        grammar::type_expr(node, document) matches Ok(value) ==> {
            &&& value == Spanned::read(value.value, document, node.span)
            &&& value.value matches TypeExprKindView::Domain { head, arguments } && head == Spanned::read(
                word,
                document,
                operand(node, 0).span,
            ) && arguments.len() == operands(node) && forall|i: int|
                1 <= i < syntax::items(node).len() ==> grammar::type_expr(#[trigger] operand(node, i), document) == Ok::<
                    TypeExprView,
                    AstErrorView,
                >(arguments[i - 1])
        },
{
    lemma_type_words();
    lemma_head(node, word, document);
    lemma_type_exprs(node, 1, Seq::empty(), document);
    let head = Spanned::read(word, document, operand(node, 0).span);
    let form = grammar::type_form(node, head, document);
    assert(grammar::type_expr(node, document) == (match form {
        Err(error) => Err(error),
        Ok(value) => Ok(Spanned::read(value, document, node.span)),
    }));
}

// Patterns.

/// `bind` names what it matches.
pub proof fn law_bind_patterns_lower(node: NodeView, document: DocumentId)
    requires
        is_form(node, "bind"@),
    ensures
        (grammar::pattern(node, document) is Ok) == (operands(node) == 1 && grammar::name(operand(node, 1), document) is Ok),
        grammar::pattern(node, document) matches Ok(value) ==> value == Spanned::read(
            PatternKindView::Bind(grammar::name(operand(node, 1), document)->Ok_0),
            document,
            node.span,
        ),
{
    lemma_pattern_words();
    lemma_head(node, "bind"@, document);
    let head = Spanned::read("bind"@, document, operand(node, 0).span);
    let form = grammar::pattern_form(node, head, document);
    assert(grammar::pattern(node, document) == (match form {
        Err(error) => Err(error),
        Ok(value) => Ok(Spanned::read(value, document, node.span)),
    }));
}

/// The pattern of a new type has its type, then the pattern of what it holds.
pub proof fn law_newtype_patterns_lower(node: NodeView, document: DocumentId)
    requires
        is_form(node, "newtype"@),
    ensures
        (grammar::pattern(node, document) is Ok) == (operands(node) == 2 && grammar::type_expr(operand(node, 1), document) is Ok && grammar::pattern(operand(node, 2), document) is Ok),
        grammar::pattern(node, document) matches Ok(value) ==> value == Spanned::read(
            PatternKindView::Newtype { ty: grammar::type_expr(operand(node, 1), document)->Ok_0, pattern: Box::new(grammar::pattern(operand(node, 2), document)->Ok_0) },
            document,
            node.span,
        ),
{
    lemma_pattern_words();
    lemma_head(node, "newtype"@, document);
    let head = Spanned::read("newtype"@, document, operand(node, 0).span);
    let form = grammar::pattern_form(node, head, document);
    assert(grammar::pattern(node, document) == (match form {
        Err(error) => Err(error),
        Ok(value) => Ok(Spanned::read(value, document, node.span)),
    }));
}

/// The pattern of an interface has its type, then a pattern.
pub proof fn law_interface_patterns_lower(node: NodeView, document: DocumentId)
    requires
        is_form(node, "interface"@),
    ensures
        (grammar::pattern(node, document) is Ok) == (operands(node) == 2 && grammar::type_expr(operand(node, 1), document) is Ok && grammar::pattern(operand(node, 2), document) is Ok),
        grammar::pattern(node, document) matches Ok(value) ==> value == Spanned::read(
            PatternKindView::Interface { ty: grammar::type_expr(operand(node, 1), document)->Ok_0, pattern: Box::new(grammar::pattern(operand(node, 2), document)->Ok_0) },
            document,
            node.span,
        ),
{
    lemma_pattern_words();
    lemma_head(node, "interface"@, document);
    let head = Spanned::read("interface"@, document, operand(node, 0).span);
    let form = grammar::pattern_form(node, head, document);
    assert(grammar::pattern(node, document) == (match form {
        Err(error) => Err(error),
        Ok(value) => Ok(Spanned::read(value, document, node.span)),
    }));
}

/// A tuple pattern has its items in their order.
pub proof fn law_tuple_patterns_lower(node: NodeView, document: DocumentId)
    requires
        is_form(node, "tuple"@),
    ensures
        (grammar::pattern(node, document) is Ok) == (forall|i: int|
            1 <= i < syntax::items(node).len() ==> grammar::pattern(#[trigger] operand(node, i), document) is Ok),
        grammar::pattern(node, document) matches Ok(value) ==> {
            &&& value == Spanned::read(value.value, document, node.span)
            &&& value.value matches PatternKindView::Tuple(parts) && parts.len() == operands(node) && forall|i: int|
                1 <= i < syntax::items(node).len() ==> grammar::pattern(#[trigger] operand(node, i), document) == Ok::<
                    PatternView,
                    AstErrorView,
                >(parts[i - 1])
        },
{
    lemma_pattern_words();
    lemma_head(node, "tuple"@, document);
    lemma_patterns(node, 1, Seq::empty(), document);
    let head = Spanned::read("tuple"@, document, operand(node, 0).span);
    let form = grammar::pattern_form(node, head, document);
    assert(grammar::pattern(node, document) == (match form {
        Err(error) => Err(error),
        Ok(value) => Ok(Spanned::read(value, document, node.span)),
    }));
}

/// An array pattern has its items in their order.
pub proof fn law_array_patterns_lower(node: NodeView, document: DocumentId)
    requires
        is_form(node, "array"@),
    ensures
        (grammar::pattern(node, document) is Ok) == (forall|i: int|
            1 <= i < syntax::items(node).len() ==> grammar::pattern(#[trigger] operand(node, i), document) is Ok),
        grammar::pattern(node, document) matches Ok(value) ==> {
            &&& value == Spanned::read(value.value, document, node.span)
            &&& value.value matches PatternKindView::Array(parts) && parts.len() == operands(node) && forall|i: int|
                1 <= i < syntax::items(node).len() ==> grammar::pattern(#[trigger] operand(node, i), document) == Ok::<
                    PatternView,
                    AstErrorView,
                >(parts[i - 1])
        },
{
    lemma_pattern_words();
    lemma_head(node, "array"@, document);
    lemma_patterns(node, 1, Seq::empty(), document);
    let head = Spanned::read("array"@, document, operand(node, 0).span);
    let form = grammar::pattern_form(node, head, document);
    assert(grammar::pattern(node, document) == (match form {
        Err(error) => Err(error),
        Ok(value) => Ok(Spanned::read(value, document, node.span)),
    }));
}

/// A record pattern has its fields in their order.
pub proof fn law_record_patterns_lower(node: NodeView, document: DocumentId)
    requires
        is_form(node, "record"@),
    ensures
        (grammar::pattern(node, document) is Ok) == (forall|i: int|
            1 <= i < syntax::items(node).len() ==> grammar::pattern_field(#[trigger] operand(node, i), document) is Ok),
        grammar::pattern(node, document) matches Ok(value) ==> {
            &&& value == Spanned::read(value.value, document, node.span)
            &&& value.value matches PatternKindView::Record(parts) && parts.len() == operands(node) && forall|i: int|
                1 <= i < syntax::items(node).len() ==> grammar::pattern_field(#[trigger] operand(node, i), document) == Ok::<
                    PatternFieldView,
                    AstErrorView,
                >(parts[i - 1])
        },
{
    lemma_pattern_words();
    lemma_head(node, "record"@, document);
    lemma_pattern_fields(node, 1, Seq::empty(), document);
    let head = Spanned::read("record"@, document, operand(node, 0).span);
    let form = grammar::pattern_form(node, head, document);
    assert(grammar::pattern(node, document) == (match form {
        Err(error) => Err(error),
        Ok(value) => Ok(Spanned::read(value, document, node.span)),
    }));
}

/// A map pattern has its entries in their order.
pub proof fn law_map_patterns_lower(node: NodeView, document: DocumentId)
    requires
        is_form(node, "map"@),
    ensures
        (grammar::pattern(node, document) is Ok) == (forall|i: int|
            1 <= i < syntax::items(node).len() ==> grammar::pattern_pair(#[trigger] operand(node, i), document) is Ok),
        grammar::pattern(node, document) matches Ok(value) ==> {
            &&& value == Spanned::read(value.value, document, node.span)
            &&& value.value matches PatternKindView::Mapping(parts) && parts.len() == operands(node) && forall|i: int|
                1 <= i < syntax::items(node).len() ==> grammar::pattern_pair(#[trigger] operand(node, i), document) == Ok::<
                    (PatternView, PatternView),
                    AstErrorView,
                >(parts[i - 1])
        },
{
    lemma_pattern_words();
    lemma_head(node, "map"@, document);
    lemma_pattern_pairs(node, 1, Seq::empty(), document);
    let head = Spanned::read("map"@, document, operand(node, 0).span);
    let form = grammar::pattern_form(node, head, document);
    assert(grammar::pattern(node, document) == (match form {
        Err(error) => Err(error),
        Ok(value) => Ok(Spanned::read(value, document, node.span)),
    }));
}

/// A list that starts with any other word is the pattern of the case that the word
/// names, with the patterns of its payload in their order.
pub proof fn law_case_patterns_lower(node: NodeView, word: Seq<char>, document: DocumentId)
    requires
        is_form(node, word),
        word != "bind"@,
        word != "record"@,
        word != "tuple"@,
        word != "array"@,
        word != "map"@,
        word != "newtype"@,
        word != "interface"@,
    ensures
        (grammar::pattern(node, document) is Ok) == (forall|i: int|
            1 <= i < syntax::items(node).len() ==> grammar::pattern(#[trigger] operand(node, i), document) is Ok),
        grammar::pattern(node, document) matches Ok(value) ==> {
            &&& value == Spanned::read(value.value, document, node.span)
            &&& value.value matches PatternKindView::Constructor { constructor, arguments } && constructor
                == Spanned::read(word, document, operand(node, 0).span) && arguments.len() == operands(node)
                && forall|i: int|
                1 <= i < syntax::items(node).len() ==> grammar::pattern(#[trigger] operand(node, i), document) == Ok::<
                    PatternView,
                    AstErrorView,
                >(arguments[i - 1])
        },
{
    lemma_head(node, word, document);
    lemma_patterns(node, 1, Seq::empty(), document);
    let head = Spanned::read(word, document, operand(node, 0).span);
    let form = grammar::pattern_form(node, head, document);
    assert(grammar::pattern(node, document) == (match form {
        Err(error) => Err(error),
        Ok(value) => Ok(Spanned::read(value, document, node.span)),
    }));
}

// Macros.

/// A macro `let` names its first operand and binds it to the second.
pub proof fn law_macro_let_lowers(node: NodeView, document: DocumentId)
    requires
        is_form(node, "let"@),
    ensures
        (grammar::macro_expr(node, document) is Ok) == (operands(node) == 2 && grammar::name(operand(node, 1), document) is Ok && grammar::macro_expr(operand(node, 2), document) is Ok),
        grammar::macro_expr(node, document) matches Ok(value) ==> value == Spanned::read(
            MacroExprKindView::Let { name: grammar::name(operand(node, 1), document)->Ok_0, value: Box::new(grammar::macro_expr(operand(node, 2), document)->Ok_0) },
            document,
            node.span,
        ),
{
    lemma_macro_words();
    lemma_head(node, "let"@, document);
    let head = Spanned::read("let"@, document, operand(node, 0).span);
    let form = grammar::macro_form(node, head, document);
    assert(grammar::macro_expr(node, document) == (match form {
        Err(error) => Err(error),
        Ok(value) => Ok(Spanned::read(value, document, node.span)),
    }));
}

/// A macro `if` tests its first operand; the second is what it yields where it holds, the third where it does not.
pub proof fn law_macro_if_lowers(node: NodeView, document: DocumentId)
    requires
        is_form(node, "if"@),
    ensures
        (grammar::macro_expr(node, document) is Ok) == (operands(node) == 3 && grammar::macro_expr(operand(node, 1), document) is Ok && grammar::macro_body(operand(node, 2), document) is Ok && grammar::macro_body(operand(node, 3), document) is Ok),
        grammar::macro_expr(node, document) matches Ok(value) ==> value == Spanned::read(
            MacroExprKindView::If { condition: Box::new(grammar::macro_expr(operand(node, 1), document)->Ok_0), then_body: grammar::macro_body(operand(node, 2), document)->Ok_0, else_body: grammar::macro_body(operand(node, 3), document)->Ok_0 },
            document,
            node.span,
        ),
{
    lemma_macro_words();
    lemma_head(node, "if"@, document);
    let head = Spanned::read("if"@, document, operand(node, 0).span);
    let form = grammar::macro_form(node, head, document);
    assert(grammar::macro_expr(node, document) == (match form {
        Err(error) => Err(error),
        Ok(value) => Ok(Spanned::read(value, document, node.span)),
    }));
}

/// `quote` keeps its second operand as it is written, as syntax of the category that is its first.
pub proof fn law_quote_lowers(node: NodeView, document: DocumentId)
    requires
        is_form(node, "quote"@),
    ensures
        (grammar::macro_expr(node, document) is Ok) == (operands(node) == 2 && grammar::syntax_category(operand(node, 1), document) is Ok),
        grammar::macro_expr(node, document) matches Ok(value) ==> value == Spanned::read(
            MacroExprKindView::Quote { category: grammar::syntax_category(operand(node, 1), document)->Ok_0, form: operand(node, 2) },
            document,
            node.span,
        ),
{
    lemma_macro_words();
    lemma_head(node, "quote"@, document);
    let head = Spanned::read("quote"@, document, operand(node, 0).span);
    let form = grammar::macro_form(node, head, document);
    assert(grammar::macro_expr(node, document) == (match form {
        Err(error) => Err(error),
        Ok(value) => Ok(Spanned::read(value, document, node.span)),
    }));
}

/// `unquote` names a binding.
pub proof fn law_unquote_lowers(node: NodeView, document: DocumentId)
    requires
        is_form(node, "unquote"@),
    ensures
        (grammar::macro_expr(node, document) is Ok) == (operands(node) == 1 && grammar::name(operand(node, 1), document) is Ok),
        grammar::macro_expr(node, document) matches Ok(value) ==> value == Spanned::read(
            MacroExprKindView::Unquote(grammar::name(operand(node, 1), document)->Ok_0),
            document,
            node.span,
        ),
{
    lemma_macro_words();
    lemma_head(node, "unquote"@, document);
    let head = Spanned::read("unquote"@, document, operand(node, 0).span);
    let form = grammar::macro_form(node, head, document);
    assert(grammar::macro_expr(node, document) == (match form {
        Err(error) => Err(error),
        Ok(value) => Ok(Spanned::read(value, document, node.span)),
    }));
}

/// `splice` names a binding.
pub proof fn law_splice_lowers(node: NodeView, document: DocumentId)
    requires
        is_form(node, "splice"@),
    ensures
        (grammar::macro_expr(node, document) is Ok) == (operands(node) == 1 && grammar::name(operand(node, 1), document) is Ok),
        grammar::macro_expr(node, document) matches Ok(value) ==> value == Spanned::read(
            MacroExprKindView::Splice(grammar::name(operand(node, 1), document)->Ok_0),
            document,
            node.span,
        ),
{
    lemma_macro_words();
    lemma_head(node, "splice"@, document);
    let head = Spanned::read("splice"@, document, operand(node, 0).span);
    let form = grammar::macro_form(node, head, document);
    assert(grammar::macro_expr(node, document) == (match form {
        Err(error) => Err(error),
        Ok(value) => Ok(Spanned::read(value, document, node.span)),
    }));
}

/// `capture` names something of the caller.
pub proof fn law_capture_lowers(node: NodeView, document: DocumentId)
    requires
        is_form(node, "capture"@),
    ensures
        (grammar::macro_expr(node, document) is Ok) == (operands(node) == 1 && grammar::name(operand(node, 1), document) is Ok),
        grammar::macro_expr(node, document) matches Ok(value) ==> value == Spanned::read(
            MacroExprKindView::Capture(grammar::name(operand(node, 1), document)->Ok_0),
            document,
            node.span,
        ),
{
    lemma_macro_words();
    lemma_head(node, "capture"@, document);
    let head = Spanned::read("capture"@, document, operand(node, 0).span);
    let form = grammar::macro_form(node, head, document);
    assert(grammar::macro_expr(node, document) == (match form {
        Err(error) => Err(error),
        Ok(value) => Ok(Spanned::read(value, document, node.span)),
    }));
}

/// The body of a macro is a `do` list that is not empty.
pub proof fn law_macro_bodies_lower(node: NodeView, document: DocumentId)
    ensures
        (grammar::macro_body(node, document) is Ok) == (is_form(node, "do"@) && operands(node) >= 1 && forall|i: int|
            1 <= i < syntax::items(node).len() ==> grammar::macro_expr(#[trigger] operand(node, i), document) is Ok),
        grammar::macro_body(node, document) matches Ok(values) ==> values.len() == operands(node) && forall|i: int|
            1 <= i < syntax::items(node).len() ==> grammar::macro_expr(#[trigger] operand(node, i), document) == Ok::<
                MacroExprView,
                AstErrorView,
            >(values[i - 1]),
{
    if is_form(node, "do"@) {
        lemma_head(node, "do"@, document);
        lemma_macro_exprs(node, 1, Seq::empty(), document);
    } else {
        lemma_other_head(node, "do"@, document);
    }
}

/// Each category has its own word.
pub proof fn law_categories_have_their_words(node: NodeView, document: DocumentId)
    ensures
        grammar::syntax_category(node, document) matches Ok(category) ==> node.kind == NodeKindView::Atom(
            AtomView::Symbol(
                match category.value {
                    SyntaxCategory::Expression => "expr-syntax"@,
                    SyntaxCategory::Type => "type-syntax"@,
                    SyntaxCategory::Pattern => "pattern-syntax"@,
                    SyntaxCategory::Definition => "definition-syntax"@,
                    SyntaxCategory::Module => "module-syntax"@,
                },
            ),
        ) && category == Spanned::read(category.value, document, node.span),
        (node.kind == NodeKindView::Atom(AtomView::Symbol("expr-syntax"@)) || node.kind == NodeKindView::Atom(
            AtomView::Symbol("type-syntax"@),
        ) || node.kind == NodeKindView::Atom(AtomView::Symbol("pattern-syntax"@)) || node.kind == NodeKindView::Atom(
            AtomView::Symbol("definition-syntax"@),
        ) || node.kind == NodeKindView::Atom(AtomView::Symbol("module-syntax"@))) ==> grammar::syntax_category(
            node,
            document,
        ) is Ok,
{
}

// Top-level forms.

/// An import names its first operand and takes the text of the second.
pub proof fn law_imports_lower(node: NodeView, document: DocumentId)
    requires
        is_form(node, "import"@),
    ensures
        (grammar::top_level(node, document) is Ok) == (operands(node) == 2 && grammar::name(operand(node, 1), document)
            is Ok && grammar::string(operand(node, 2), document) is Ok),
        grammar::top_level(node, document) matches Ok(form) ==> (form matches TopLevelView::Import(import)
            && grammar::name(operand(node, 1), document) == Ok::<NameView, AstErrorView>(import.alias)
            && grammar::string(operand(node, 2), document) == Ok::<NameView, AstErrorView>(import.path) && import.span
            == node.span),
{
    lemma_top_level_words();
    lemma_head(node, "import"@, document);
    reveal(grammar::top_level);
    reveal(grammar::import);
}

/// The parts of a function stand in the order name, parameters, result, body; it can
/// be seen from outside unless it is private.
pub proof fn law_functions_lower(node: NodeView, document: DocumentId)
    requires
        is_form(node, "fn"@),
        grammar::top_level(node, document) is Ok,
    ensures
        grammar::top_level(node, document) matches Ok(TopLevelView::Function(function)) && {
            &&& grammar::name(operand(node, 1), document) == Ok::<NameView, AstErrorView>(function.name)
            &&& grammar::parameters(operand(node, 2), document) == Ok::<Seq<ParameterView>, AstErrorView>(
                function.parameters,
            )
            &&& grammar::type_expr(operand(node, 3), document) == Ok::<TypeExprView, AstErrorView>(function.return_type)
            &&& grammar::body(operand(node, 4), document) == Ok::<Seq<ExprView>, AstErrorView>(function.body)
            &&& function.visibility == Visibility::Public
            &&& function.span == node.span
        },
{
    lemma_top_level_words();
    lemma_head(node, "fn"@, document);
    reveal(grammar::top_level);
}

/// The parts of a constant stand in the order name, type, value.
pub proof fn law_constants_lower(node: NodeView, document: DocumentId)
    requires
        is_form(node, "const"@),
        grammar::top_level(node, document) is Ok,
    ensures
        grammar::top_level(node, document) matches Ok(TopLevelView::Constant(constant)) && {
            &&& grammar::name(operand(node, 1), document) == Ok::<NameView, AstErrorView>(constant.name)
            &&& grammar::type_expr(operand(node, 2), document) == Ok::<TypeExprView, AstErrorView>(constant.ty)
            &&& grammar::expr(operand(node, 3), document) == Ok::<ExprView, AstErrorView>(constant.value)
            &&& constant.visibility == Visibility::Public
            &&& constant.span == node.span
        },
{
    lemma_top_level_words();
    lemma_head(node, "const"@, document);
    reveal(grammar::top_level);
    reveal(grammar::constant);
}

/// The parts of a definition stand in the order name, type.
pub proof fn law_definitions_lower(node: NodeView, document: DocumentId)
    requires
        is_form(node, "def"@),
        grammar::top_level(node, document) is Ok,
    ensures
        grammar::top_level(node, document) matches Ok(TopLevelView::Definition(definition)) && {
            &&& grammar::name(operand(node, 1), document) == Ok::<NameView, AstErrorView>(definition.name)
            &&& grammar::type_expr(operand(node, 2), document) == Ok::<TypeExprView, AstErrorView>(definition.body)
            &&& definition.visibility == Visibility::Public
            &&& definition.span == node.span
        },
{
    lemma_top_level_words();
    lemma_head(node, "def"@, document);
    reveal(grammar::top_level);
    reveal(grammar::definition);
}

/// The parts of a macro stand in the order name, parameters, category, body.
pub proof fn law_macros_lower(node: NodeView, document: DocumentId)
    requires
        is_form(node, "macro"@),
        grammar::top_level(node, document) is Ok,
    ensures
        grammar::top_level(node, document) matches Ok(TopLevelView::Macro(definition)) && {
            &&& grammar::name(operand(node, 1), document) == Ok::<NameView, AstErrorView>(definition.name)
            &&& grammar::macro_parameters(operand(node, 2), document) == Ok::<Seq<MacroParameterView>, AstErrorView>(
                definition.parameters,
            )
            &&& grammar::syntax_category(operand(node, 3), document) == Ok::<Spanned<SyntaxCategory>, AstErrorView>(
                definition.result,
            )
            &&& grammar::macro_body(operand(node, 4), document) == Ok::<Seq<MacroExprView>, AstErrorView>(
                definition.body,
            )
            &&& definition.visibility == Visibility::Public
            &&& definition.span == node.span
        },
{
    lemma_top_level_words();
    lemma_head(node, "macro"@, document);
    reveal(grammar::top_level);
    reveal(grammar::macro_definition);
}

/// The parts of a test stand in the order name, profile, body.
pub proof fn law_tests_lower(node: NodeView, document: DocumentId)
    requires
        is_form(node, "test"@),
        grammar::top_level(node, document) is Ok,
    ensures
        grammar::top_level(node, document) matches Ok(TopLevelView::Test(case)) && {
            &&& grammar::name(operand(node, 1), document) == Ok::<NameView, AstErrorView>(case.name)
            &&& grammar::name(operand(node, 2), document) == Ok::<NameView, AstErrorView>(case.profile)
            &&& grammar::body(operand(node, 3), document) == Ok::<Seq<ExprView>, AstErrorView>(case.body)
            &&& case.span == node.span
        },
{
    lemma_top_level_words();
    lemma_head(node, "test"@, document);
    reveal(grammar::top_level);
    reveal(grammar::test);
}

/// What is marked private is what it is without the mark, but for who can see it and
/// for where it stands.
pub proof fn law_private_forms_lower(node: NodeView, document: DocumentId)
    requires
        is_form(node, "private"@),
        grammar::top_level(node, document) is Ok,
    ensures
        operands(node) == 1,
        match grammar::top_level(node, document)->Ok_0 {
            TopLevelView::Function(function) => function.visibility == Visibility::Private && function.span == node.span
                && is_form(operand(node, 1), "fn"@) && (grammar::function(operand(node, 1), Visibility::Public, document)
                matches Ok(open) && open.name == function.name && open.parameters == function.parameters
                && open.return_type == function.return_type && open.body == function.body),
            TopLevelView::Constant(constant) => constant.visibility == Visibility::Private && constant.span == node.span
                && is_form(operand(node, 1), "const"@) && (grammar::constant(
                operand(node, 1),
                Visibility::Public,
                document,
            ) matches Ok(open) && open.name == constant.name && open.ty == constant.ty && open.value == constant.value),
            TopLevelView::Definition(definition) => definition.visibility == Visibility::Private && definition.span
                == node.span && is_form(operand(node, 1), "def"@) && (grammar::definition(
                operand(node, 1),
                Visibility::Public,
                document,
            ) matches Ok(open) && open.name == definition.name && open.body == definition.body),
            TopLevelView::Macro(definition) => definition.visibility == Visibility::Private && definition.span
                == node.span && is_form(operand(node, 1), "macro"@) && (grammar::macro_definition(
                operand(node, 1),
                Visibility::Public,
                document,
            ) matches Ok(open) && open.name == definition.name && open.body == definition.body && open.parameters
                == definition.parameters && open.result == definition.result),
            _ => false,
        },
{
    lemma_top_level_words();
    lemma_head(node, "private"@, document);
    reveal(grammar::top_level);
    reveal(grammar::private);
    reveal(grammar::definition);
    reveal(grammar::constant);
    reveal(grammar::macro_definition);
    let inner = operand(node, 1);
    if operands(node) == 1 && grammar::head(inner, document) is Ok {
        let word = grammar::head(inner, document)->Ok_0.value;
        assert(is_form(inner, word));
    }
}

/// The forms of a module lower one by one, in the order in which they stand.
pub proof fn law_modules_lower_in_order(nodes: Seq<NodeView>, from: int, done: Seq<TopLevelView>, document: DocumentId)
    requires
        0 <= from <= nodes.len(),
    ensures
        (grammar::top_levels(nodes, from, done, document) is Ok) == (forall|i: int|
            from <= i < nodes.len() ==> grammar::top_level(#[trigger] nodes[i], document) is Ok),
        grammar::top_levels(nodes, from, done, document) matches Ok(forms) ==> {
            &&& forms.len() == done.len() + nodes.len() - from
            &&& forall|i: int| 0 <= i < done.len() ==> forms[i] == done[i]
            &&& forall|i: int|
                from <= i < nodes.len() ==> grammar::top_level(#[trigger] nodes[i], document) == Ok::<
                    TopLevelView,
                    AstErrorView,
                >(forms[done.len() + i - from])
        },
    decreases nodes.len() - from,
{
    if from < nodes.len() {
        match grammar::top_level(nodes[from], document) {
            Err(_) => {}
            Ok(form) => {
                law_modules_lower_in_order(nodes, from + 1, done.push(form), document);
                if grammar::top_levels(nodes, from, done, document) is Ok {
                    let forms = grammar::top_levels(nodes, from, done, document)->Ok_0;
                    assert forall|i: int| 0 <= i < done.len() implies forms[i] == done[i] by {
                        assert(done.push(form)[i] == done[i]);
                    }
                    assert(done.push(form)[done.len() as int] == form);
                }
            }
        }
    }
}

/// Comments do not matter: what is left without them is every other node, in order.
pub proof fn law_comments_do_not_matter(nodes: Seq<NodeView>, index: int)
    requires
        0 <= index < nodes.len(),
        nodes[index].kind is Comment,
    ensures
        syntax::semantic(nodes) == syntax::semantic(nodes.remove(index)),
        forall|i: int| 0 <= i < syntax::semantic(nodes).len() ==> !((#[trigger] syntax::semantic(nodes)[i]).kind is Comment),
    decreases nodes.len(),
{
    lemma_semantic(nodes);
    let rest = nodes.remove(index);
    if index == nodes.len() - 1 {
        assert(rest =~= nodes.drop_last());
    } else {
        assert(rest.last() == nodes.last());
        assert(rest.drop_last() =~= nodes.drop_last().remove(index));
        law_comments_do_not_matter(nodes.drop_last(), index);
    }
}

/// Without comments a list is kept as it is.
pub proof fn law_other_nodes_are_kept(nodes: Seq<NodeView>)
    requires
        forall|i: int| 0 <= i < nodes.len() ==> !((#[trigger] nodes[i]).kind is Comment),
    ensures
        syntax::semantic(nodes) == nodes,
    decreases nodes.len(),
{
    if nodes.len() > 0 {
        law_other_nodes_are_kept(nodes.drop_last());
        assert(nodes.drop_last().push(nodes.last()) =~= nodes);
    } else {
        assert(nodes =~= Seq::empty());
    }
}

proof fn lemma_semantic(nodes: Seq<NodeView>)
    ensures
        forall|i: int| 0 <= i < syntax::semantic(nodes).len() ==> !((#[trigger] syntax::semantic(nodes)[i]).kind is Comment),
    decreases nodes.len(),
{
    if nodes.len() > 0 {
        lemma_semantic(nodes.drop_last());
    }
}
// Attributes.

/// Whether a node is a label.
pub open spec fn is_label(node: NodeView, word: Seq<char>) -> bool {
    node.kind == NodeKindView::Atom(AtomView::Label(word))
}

proof fn lemma_attribute_words()
    ensures
        "doc"@ != "where"@,
        "doc"@ != "defs"@,
        "doc"@ != "impls"@,
        "where"@ != "defs"@,
        "where"@ != "impls"@,
        "defs"@ != "impls"@,
        "tags"@ != "expect-error"@,
        "tags"@ != "clock"@,
        "expect-error"@ != "clock"@,
        "workspace"@ != "tags"@,
        "workspace"@ != "expect-error"@,
        "workspace"@ != "clock"@,
        "workspace"@ != "benchmark"@,
        "benchmark"@ != "tags"@,
        "benchmark"@ != "expect-error"@,
        "benchmark"@ != "clock"@,
{
    reveal_strlit("doc");
    reveal_strlit("where");
    reveal_strlit("defs");
    reveal_strlit("impls");
    reveal_strlit("tags");
    reveal_strlit("expect-error");
    reveal_strlit("clock");
    reveal_strlit("workspace");
    reveal_strlit("benchmark");
    assert("doc"@.len() == 3 && "where"@.len() == 5 && "defs"@.len() == 4 && "impls"@.len() == 5);
    assert("where"@[0] == 'w' && "impls"@[0] == 'i');
    assert("tags"@.len() == 4 && "expect-error"@.len() == 12 && "clock"@.len() == 5);
    assert("workspace"@.len() == 9 && "benchmark"@.len() == 9);
    assert("workspace"@[0] == 'w' && "benchmark"@[0] == 'b');
}

/// An attribute is a label and the value behind it, and adds one annotation of its kind
/// behind the others: `doc` a text, `where` type parameters, `defs` functions. A label
/// of another name is refused.
pub proof fn law_attributes_are_read(
    owner: NodeView,
    from: int,
    done: Seq<AnnotationView>,
    word: Seq<char>,
    document: DocumentId,
)
    requires
        0 <= from,
        from + 1 < syntax::items(owner).len(),
        is_label(operand(owner, from), word),
    ensures
        ({
            let value = operand(owner, from + 1);
            let span = operand(owner, from).span.covering(value.span);
            let read = grammar::annotations(owner, from, done, document);
            &&& word == "doc"@ ==> match grammar::string(value, document) {
                Ok(text) => read == grammar::annotations(
                    owner,
                    from + 2,
                    done.push(Spanned::read(AnnotationKindView::Doc(text.value), document, span)),
                    document,
                ),
                Err(_) => read is Err,
            }
            &&& word == "where"@ ==> match grammar::type_parameters(value, document) {
                Ok(values) => read == grammar::annotations(
                    owner,
                    from + 2,
                    done.push(Spanned::read(AnnotationKindView::Where(values), document, span)),
                    document,
                ),
                Err(_) => read is Err,
            }
            &&& word == "defs"@ && value.kind is List ==> match grammar::functions(value, 0, Seq::empty(), document) {
                Ok(values) => read == grammar::annotations(
                    owner,
                    from + 2,
                    done.push(Spanned::read(AnnotationKindView::Definitions(values), document, span)),
                    document,
                ),
                Err(_) => read is Err,
            }
            &&& word != "doc"@ && word != "where"@ && word != "defs"@ && word != "impls"@ ==> read is Err
        }),
        grammar::annotations(owner, syntax::items(owner).len() as int, done, document) == Ok::<
            Seq<AnnotationView>,
            AstErrorView,
        >(done),
{
    lemma_attribute_words();
    let found = grammar::label(operand(owner, from), document);
    assert(found == Ok::<NameView, AstErrorView>(Spanned::read(word, document, operand(owner, from).span)));
}

/// The attributes of a function stand behind its four parts, those of a constant behind
/// three and those of a definition behind two.
pub proof fn law_attributes_stand_last(node: NodeView, document: DocumentId)
    requires
        grammar::top_level(node, document) is Ok,
    ensures
        is_form(node, "fn"@) ==> (grammar::top_level(node, document) matches Ok(TopLevelView::Function(function))
            && grammar::annotations(node, 5, Seq::empty(), document) == Ok::<Seq<AnnotationView>, AstErrorView>(
            function.annotations,
        )),
        is_form(node, "const"@) ==> (grammar::top_level(node, document) matches Ok(TopLevelView::Constant(constant))
            && grammar::annotations(node, 4, Seq::empty(), document) == Ok::<Seq<AnnotationView>, AstErrorView>(
            constant.annotations,
        )),
        is_form(node, "def"@) ==> (grammar::top_level(node, document) matches Ok(TopLevelView::Definition(definition))
            && grammar::annotations(node, 3, Seq::empty(), document) == Ok::<Seq<AnnotationView>, AstErrorView>(
            definition.annotations,
        )),
        is_form(node, "macro"@) ==> (grammar::top_level(node, document) matches Ok(TopLevelView::Macro(definition))
            && grammar::annotations(node, 5, Seq::empty(), document) == Ok::<Seq<AnnotationView>, AstErrorView>(
            definition.annotations,
        )),
{
    lemma_top_level_words();
    reveal(grammar::top_level);
    reveal(grammar::constant);
    reveal(grammar::definition);
    reveal(grammar::macro_definition);
    if is_form(node, "fn"@) {
        lemma_head(node, "fn"@, document);
    }
    if is_form(node, "const"@) {
        lemma_head(node, "const"@, document);
    }
    if is_form(node, "def"@) {
        lemma_head(node, "def"@, document);
    }
    if is_form(node, "macro"@) {
        lemma_head(node, "macro"@, document);
    }
}

/// A method names itself, then what it is bound to.
pub proof fn law_methods_lower(node: NodeView, document: DocumentId)
    requires
        is_form(node, "method"@),
    ensures
        grammar::method(node, document) matches Ok(item) ==> operands(node) == 2 && (item
            matches ImplItemView::Method { name, binding, span } && grammar::name(operand(node, 1), document) == Ok::<
            NameView,
            AstErrorView,
        >(name) && grammar::method_binding(operand(node, 2), document) == Ok::<MethodBindingView, AstErrorView>(binding)
            && span == node.span),
{
    lemma_head(node, "method"@, document);
}

/// An expected error has its phase, its code and perhaps a message; a clock has its mode,
/// then its milliseconds.
pub proof fn law_test_attributes_are_read(owner: NodeView, from: int, document: DocumentId)
    requires
        0 <= from,
        from + 1 < syntax::items(owner).len(),
    ensures
        is_label(operand(owner, from), "expect-error"@) ==> (grammar::test_meta(owner, from, document) matches Ok(meta)
            ==> (meta matches TestMetaView::ExpectError { phase, code, message } && grammar::name(
            operand(operand(owner, from + 1), 0),
            document,
        ) == Ok::<NameView, AstErrorView>(phase) && grammar::name(operand(operand(owner, from + 1), 1), document) == Ok::<
            NameView,
            AstErrorView,
        >(code) && (message is Some) == (syntax::items(operand(owner, from + 1)).len() == 3))),
        is_label(operand(owner, from), "clock"@) ==> (grammar::test_meta(owner, from, document) matches Ok(meta) ==> (meta
            matches TestMetaView::Clock { mode, millis } && grammar::name(operand(operand(owner, from + 1), 0), document)
            == Ok::<NameView, AstErrorView>(mode) && grammar::integer(operand(operand(owner, from + 1), 1), document)
            == Ok::<Spanned<i64>, AstErrorView>(millis))),
        is_label(operand(owner, from), "tags"@) ==> (grammar::test_meta(owner, from, document) matches Ok(meta) ==> (meta
            matches TestMetaView::Tags(tags) && grammar::names(operand(owner, from + 1), 0, Seq::empty(), document)
            == Ok::<Seq<NameView>, AstErrorView>(tags))),
        is_label(operand(owner, from), "workspace"@) ==> (grammar::test_meta(owner, from, document) matches Ok(meta)
            ==> (meta matches TestMetaView::Workspace(name) && grammar::name(operand(owner, from + 1), document) == Ok::<
            NameView,
            AstErrorView,
        >(name))),
{
    lemma_attribute_words();
    reveal(grammar::test_meta);
    match operand(owner, from).kind {
        NodeKindView::Atom(AtomView::Label(word)) => {
            assert(grammar::label(operand(owner, from), document) == Ok::<NameView, AstErrorView>(
                Spanned::read(word, document, operand(owner, from).span),
            ));
        }
        _ => {}
    }
}

} // verus!
