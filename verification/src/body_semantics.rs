//! Checks of lowered bodies: that they return, that task handles are joined once,
//! that results are handled and bindings are read.
use vstd::prelude::*;
use crate::effect_semantics::insert_text;
use crate::execute::eval::find_function;
use crate::execute::pattern::strip_type_enum_suffix;
use crate::execute::values::same_type;
use crate::lowered::copy;
use crate::lowered::ir::{
    AliasEntry, Call, EnumTag, Expr, FieldExpr, FieldPattern, FunctionBody, FunctionEntry, LetValue, MatchArm,
    Pattern,
    RuntimeValue, Statement, TypeAlias, TypeRef, TypedName,
};
use crate::lowered::view::{
    self, AliasEntryView, CallView, EnumTagView, ExprView, FieldExprView, FieldPatternView, FunctionBodyView,
    FunctionEntryView, LetValueView, MatchArmView, PatternView, StatementView, TypeAliasView, TypeView, TypedNameView,
    ValueView,
};
use crate::text::{concat_five, concat_three, owned, same_text};

verus! {

// Return.

/// Whether a body always ends with a return.
pub open spec fn terminates(statements: Seq<StatementView>) -> bool
    decreases statements,
{
    if statements.len() == 0 {
        false
    } else {
        match statements[statements.len() - 1] {
            StatementView::Return(_) => true,
            StatementView::Match { arms, .. } => arms_terminate(arms, 0),
            StatementView::If { then_body, else_body, .. } => terminates(then_body) && terminates(else_body),
            _ => false,
        }
    }
}

pub open spec fn arms_terminate(arms: Seq<MatchArmView>, from: int) -> bool
    decreases arms, arms.len() - from,
{
    if from < 0 || from >= arms.len() {
        true
    } else {
        terminates(arms[from].body) && arms_terminate(arms, from + 1)
    }
}

fn body_terminates(statements: &Vec<Statement>) -> (result: bool)
    ensures
        result == terminates(view::statements(statements@)),
    decreases statements,
{
    let count: usize = statements.len();
    if count == 0 {
        return false;
    }
    assert(view::statements(statements@)[count - 1] == view::statement(statements@[count - 1]));
    match &statements[count - 1] {
        Statement::Return(_) => true,
        Statement::Match { arms, .. } => all_arms_terminate(arms),
        Statement::If { then_body, else_body, .. } => body_terminates(then_body) && body_terminates(else_body),
        _ => false,
    }
}

fn all_arms_terminate(arms: &Vec<MatchArm>) -> (result: bool)
    ensures
        result == arms_terminate(view::match_arms(arms@), 0),
    decreases arms,
{
    let ghost all = view::match_arms(arms@);
    let mut i: usize = 0;
    while i < arms.len()
        invariant
            i <= arms.len(),
            all == view::match_arms(arms@),
            arms_terminate(all, 0) == arms_terminate(all, i as int),
        decreases arms.len() - i,
    {
        assert(all[i as int] == view::match_arm(arms@[i as int]));
        if !body_terminates(&arms[i].body) {
            return false;
        }
        i += 1;
    }
    true
}

pub open spec fn no_return_text() -> Seq<char> {
    "non-void function must end with `$return`, or with `$match` whose every arm ends with `$return`"@
}

/// Checks that a function with a value returns one on every path.
pub fn validate_function_body(statements: &Vec<Statement>, return_type: &TypeRef) -> (result: Result<(), String>)
    ensures
        match result {
            Ok(_) => view::type_ref(*return_type) is Void || terminates(view::statements(statements@)),
            Err(message) => message@ == no_return_text() && !(view::type_ref(*return_type) is Void) && !terminates(
                view::statements(statements@),
            ),
        },
{
    if !matches!(return_type, TypeRef::Void) && !body_terminates(statements) {
        return Err(
            owned("non-void function must end with `$return`, or with `$match` whose every arm ends with `$return`"),
        );
    }
    Ok(())
}

// Task handles.

/// Whether a handle is live.
pub open spec fn is_live(names: Seq<Seq<char>>, name: Seq<char>) -> bool {
    crate::effect_semantics::node_from(names, 0, name) < names.len()
}

/// The handles without one.
pub open spec fn without_text(names: Seq<Seq<char>>, name: Seq<char>) -> Seq<Seq<char>> {
    let place = crate::effect_semantics::node_from(names, 0, name);
    if 0 <= place < names.len() {
        names.remove(place)
    } else {
        names
    }
}

/// The handles that are live behind `statements[from..]`, or what is wrong. The
/// handles are listed in order.
pub open spec fn live_after(statements: Seq<StatementView>, from: int, live: Seq<Seq<char>>) -> Result<
    Seq<Seq<char>>,
    Seq<char>,
>
    decreases statements, statements.len() - from,
{
    if from < 0 || from >= statements.len() {
        Ok(live)
    } else {
        match live_behind(statements[from], live) {
            Err(message) => Err(message),
            Ok(live) => live_after(statements, from + 1, live),
        }
    }
}

pub open spec fn live_behind(statement: StatementView, live: Seq<Seq<char>>) -> Result<Seq<Seq<char>>, Seq<char>>
    decreases statement, 0int,
{
    match statement {
        StatementView::Spawn { handle, .. } => if is_live(live, handle) {
            Err("task handle `"@ + handle + "` is spawned more than once"@)
        } else {
            Ok(crate::effect_semantics::with_text(live, handle))
        },
        StatementView::Join { handle, .. } => if is_live(live, handle) {
            Ok(without_text(live, handle))
        } else {
            Err("task handle `"@ + handle + "` is joined more than once or out of scope"@)
        },
        StatementView::If { then_body, else_body, .. } => match live_after(then_body, 0, live) {
            Err(message) => Err(message),
            Ok(then_live) => match live_after(else_body, 0, live) {
                Err(message) => Err(message),
                Ok(else_live) => if then_live != else_live {
                    Err("both branches must consume the same task handles"@)
                } else {
                    Ok(then_live)
                },
            },
        },
        StatementView::Match { arms, .. } => match live_in_arms(arms, 0, live, None) {
            Err(message) => Err(message),
            Ok(Some(arm_live)) => Ok(arm_live),
            Ok(None) => Ok(live),
        },
        StatementView::While { body, .. } => live_in_loop(body, live),
        StatementView::For { body, .. } => live_in_loop(body, live),
        StatementView::Task { body, .. } => match live_after(body, 0, Seq::empty()) {
            Err(message) => Err(message),
            Ok(nested) => if nested.len() > 0 {
                Err("nested task left unjoined handles"@)
            } else {
                Ok(live)
            },
        },
        _ => Ok(live),
    }
}

pub open spec fn live_in_loop(body: Seq<StatementView>, live: Seq<Seq<char>>) -> Result<Seq<Seq<char>>, Seq<char>>
    decreases body, body.len() + 1,
{
    match live_after(body, 0, live) {
        Err(message) => Err(message),
        Ok(after) => if after != live {
            Err("loops cannot create or consume task handles across iterations"@)
        } else {
            Ok(live)
        },
    }
}

pub open spec fn live_in_arms(
    arms: Seq<MatchArmView>,
    from: int,
    live: Seq<Seq<char>>,
    merged: Option<Seq<Seq<char>>>,
) -> Result<Option<Seq<Seq<char>>>, Seq<char>>
    decreases arms, arms.len() - from,
{
    if from < 0 || from >= arms.len() {
        Ok(merged)
    } else {
        match live_after(arms[from].body, 0, live) {
            Err(message) => Err(message),
            Ok(arm_live) => if merged is Some && merged != Some(arm_live) {
                Err("every match arm must consume the same task handles"@)
            } else {
                live_in_arms(arms, from + 1, live, Some(arm_live))
            },
        }
    }
}

/// What is wrong with a body's task handles.
pub open spec fn handle_error(statements: Seq<StatementView>) -> Option<Seq<char>> {
    match live_after(statements, 0, Seq::empty()) {
        Err(message) => Some(message),
        Ok(live) => if live.len() > 0 {
            Some("task handles must be joined before leaving their scope"@)
        } else {
            None
        },
    }
}

fn place_of_name(names: &Vec<String>, name: &str) -> (place: Option<usize>)
    ensures
        match place {
            Some(place) => place < names.len() && crate::effect_semantics::node_from(view::texts(names@), 0, name@)
                == place as int,
            None => !is_live(view::texts(names@), name@),
        },
{
    let ghost all = view::texts(names@);
    let mut i: usize = 0;
    while i < names.len()
        invariant
            i <= names.len(),
            all == view::texts(names@),
            crate::effect_semantics::node_from(all, 0, name@) == crate::effect_semantics::node_from(
                all,
                i as int,
                name@,
            ),
        decreases names.len() - i,
    {
        assert(all[i as int] == names@[i as int]@);
        if same_text(names[i].as_str(), name) {
            return Some(i);
        }
        i += 1;
    }
    None
}

fn same_names(left: &Vec<String>, right: &Vec<String>) -> (result: bool)
    ensures
        result == (view::texts(left@) == view::texts(right@)),
{
    crate::execute::paths::same_segments(left, right)
}

pub open spec fn texts_result(result: Result<Vec<String>, String>) -> Result<Seq<Seq<char>>, Seq<char>> {
    match result {
        Ok(names) => Ok(view::texts(names@)),
        Err(message) => Err(message@),
    }
}

fn walk_handles(statements: &Vec<Statement>, given: Vec<String>) -> (result: Result<Vec<String>, String>)
    ensures
        texts_result(result) == live_after(view::statements(statements@), 0, view::texts(given@)),
    decreases statements, 0int,
{
    let ghost all = view::statements(statements@);
    let ghost start = view::texts(given@);
    let mut live = given;
    let mut i: usize = 0;
    while i < statements.len()
        invariant
            i <= statements.len(),
            all == view::statements(statements@),
            start == view::texts(given@),
            live_after(all, 0, start) == live_after(all, i as int, view::texts(live@)),
        decreases statements.len() - i,
    {
        assert(all[i as int] == view::statement(statements@[i as int]));
        live = match walk_handle(&statements[i], live) {
            Ok(live) => live,
            Err(message) => return Err(message),
        };
        i += 1;
    }
    Ok(live)
}

fn walk_handle(statement: &Statement, live: Vec<String>) -> (result: Result<Vec<String>, String>)
    ensures
        texts_result(result) == live_behind(view::statement(*statement), view::texts(live@)),
    decreases statement, 0int,
{
    match statement {
        Statement::Spawn { handle, .. } => {
            match place_of_name(&live, handle.as_str()) {
                Some(_) => Err(concat_three("task handle `", handle.as_str(), "` is spawned more than once")),
                None => {
                    let mut next = live;
                    insert_text(&mut next, handle.as_str());
                    Ok(next)
                }
            }
        }
        Statement::Join { handle, .. } => match place_of_name(&live, handle.as_str()) {
            Some(place) => {
                let ghost before = view::texts(live@);
                let mut next = live;
                next.remove(place);
                assert(view::texts(next@) =~= before.remove(place as int));
                Ok(next)
            }
            None => Err(
                concat_three("task handle `", handle.as_str(), "` is joined more than once or out of scope"),
            ),
        },
        Statement::If { then_body, else_body, .. } => {
            let then_live = match walk_handles(then_body, copy::texts(&live)) {
                Ok(then_live) => then_live,
                Err(message) => return Err(message),
            };
            let else_live = match walk_handles(else_body, live) {
                Ok(else_live) => else_live,
                Err(message) => return Err(message),
            };
            if !same_names(&then_live, &else_live) {
                return Err(owned("both branches must consume the same task handles"));
            }
            Ok(then_live)
        }
        Statement::Match { arms, .. } => match walk_arms(arms, &live) {
            Ok(Some(arm_live)) => Ok(arm_live),
            Ok(None) => Ok(live),
            Err(message) => Err(message),
        },
        Statement::While { body, .. } => walk_loop(body, live),
        Statement::For { body, .. } => walk_loop(body, live),
        Statement::Task { body, .. } => {
            let none: Vec<String> = Vec::new();
            assert(view::texts(none@) =~= Seq::<Seq<char>>::empty());
            match walk_handles(body, none) {
                Ok(nested) => {
                    assert(view::texts(nested@).len() == nested@.len());
                    if nested.len() > 0 {
                        Err(owned("nested task left unjoined handles"))
                    } else {
                        Ok(live)
                    }
                }
                Err(message) => Err(message),
            }
        }
        _ => Ok(live),
    }
}

fn walk_loop(body: &Vec<Statement>, live: Vec<String>) -> (result: Result<Vec<String>, String>)
    ensures
        texts_result(result) == live_in_loop(view::statements(body@), view::texts(live@)),
    decreases body, 1int,
{
    match walk_handles(body, copy::texts(&live)) {
        Ok(after) => {
            if !same_names(&after, &live) {
                Err(owned("loops cannot create or consume task handles across iterations"))
            } else {
                Ok(live)
            }
        }
        Err(message) => Err(message),
    }
}

pub open spec fn option_texts(names: Option<Vec<String>>) -> Option<Seq<Seq<char>>> {
    match names {
        Some(names) => Some(view::texts(names@)),
        None => None,
    }
}

fn walk_arms(arms: &Vec<MatchArm>, live: &Vec<String>) -> (result: Result<Option<Vec<String>>, String>)
    ensures
        match result {
            Ok(merged) => live_in_arms(view::match_arms(arms@), 0, view::texts(live@), None) == Ok::<
                Option<Seq<Seq<char>>>,
                Seq<char>,
            >(option_texts(merged)),
            Err(message) => live_in_arms(view::match_arms(arms@), 0, view::texts(live@), None) == Err::<
                Option<Seq<Seq<char>>>,
                Seq<char>,
            >(message@),
        },
    decreases arms, 0int,
{
    let ghost all = view::match_arms(arms@);
    let ghost start = view::texts(live@);
    let mut merged: Option<Vec<String>> = None;
    let mut i: usize = 0;
    while i < arms.len()
        invariant
            i <= arms.len(),
            all == view::match_arms(arms@),
            start == view::texts(live@),
            live_in_arms(all, 0, start, None) == live_in_arms(all, i as int, start, option_texts(merged)),
        decreases arms.len() - i,
    {
        assert(all[i as int] == view::match_arm(arms@[i as int]));
        let arm_live = match walk_handles(&arms[i].body, copy::texts(live)) {
            Ok(arm_live) => arm_live,
            Err(message) => return Err(message),
        };
        match &merged {
            Some(prior) => {
                if !same_names(prior, &arm_live) {
                    return Err(owned("every match arm must consume the same task handles"));
                }
            }
            None => {}
        }
        merged = Some(arm_live);
        i += 1;
    }
    Ok(merged)
}

/// Checks that every task handle is joined exactly once on every path.
pub fn validate_task_handles(statements: &Vec<Statement>) -> (result: Result<(), String>)
    ensures
        handle_error(view::statements(statements@)) == (match result {
            Ok(_) => None,
            Err(message) => Some(message@),
        }),
{
    let none: Vec<String> = Vec::new();
    assert(view::texts(none@) =~= Seq::<Seq<char>>::empty());
    match walk_handles(statements, none) {
        Ok(live) => {
            assert(view::texts(live@).len() == live@.len());
            if live.len() > 0 {
                Err(owned("task handles must be joined before leaving their scope"))
            } else {
                Ok(())
            }
        }
        Err(message) => Err(message),
    }
}

// Types.

/// The place of the last parameter of a name that has an argument, or -1.
pub open spec fn param_place(params: Seq<Seq<char>>, count: int, name: Seq<char>) -> int
    decreases count,
{
    if count <= 0 || count > params.len() {
        -1
    } else if params[count - 1] == name {
        count - 1
    } else {
        param_place(params, count - 1, name)
    }
}

pub open spec fn paired(params: Seq<Seq<char>>, args: Seq<TypeView>) -> int {
    if params.len() <= args.len() {
        params.len() as int
    } else {
        args.len() as int
    }
}

/// A type with its parameters replaced by arguments.
pub open spec fn substituted(ty: TypeView, params: Seq<Seq<char>>, args: Seq<TypeView>) -> TypeView
    decreases ty,
{
    match ty {
        TypeView::Named(name) => {
            let place = param_place(params, paired(params, args), name);
            if 0 <= place < args.len() {
                args[place]
            } else {
                ty
            }
        },
        TypeView::Instantiated { base, type_args } => TypeView::Instantiated {
            base,
            type_args: substituted_types(type_args, params, args),
        },
        TypeView::Mutable(inner) => TypeView::Mutable(Box::new(substituted(*inner, params, args))),
        TypeView::Reference { inner, mutable } => TypeView::Reference {
            inner: Box::new(substituted(*inner, params, args)),
            mutable,
        },
        TypeView::Enum(tags) => TypeView::Enum(substituted_tags(tags, params, args)),
        _ => ty,
    }
}

pub open spec fn substituted_types(types: Seq<TypeView>, params: Seq<Seq<char>>, args: Seq<TypeView>) -> Seq<TypeView>
    decreases types,
{
    Seq::new(
        types.len(),
        |i: int| if 0 <= i < types.len() { substituted(types[i], params, args) } else { arbitrary() },
    )
}

pub open spec fn substituted_tags(
    tags: Seq<EnumTagView>,
    params: Seq<Seq<char>>,
    args: Seq<TypeView>,
) -> Seq<EnumTagView>
    decreases tags,
{
    Seq::new(
        tags.len(),
        |i: int| if 0 <= i < tags.len() { substituted_tag(tags[i], params, args) } else { arbitrary() },
    )
}

pub open spec fn substituted_tag(tag: EnumTagView, params: Seq<Seq<char>>, args: Seq<TypeView>) -> EnumTagView
    decreases tag,
{
    EnumTagView {
        name: tag.name,
        payload: match tag.payload {
            Some(payload) => Some(substituted(payload, params, args)),
            None => None,
        },
    }
}

fn find_param(params: &Vec<String>, args: &Vec<TypeRef>, name: &str) -> (place: Option<usize>)
    ensures
        match place {
            Some(place) => place < args.len() && param_place(
                view::texts(params@),
                paired(view::texts(params@), view::type_refs(args@)),
                name@,
            ) == place as int,
            None => param_place(
                view::texts(params@),
                paired(view::texts(params@), view::type_refs(args@)),
                name@,
            ) == -1,
        },
{
    let ghost all = view::texts(params@);
    let ghost count = paired(all, view::type_refs(args@));
    let mut i: usize = if params.len() <= args.len() {
        params.len()
    } else {
        args.len()
    };
    assert(view::type_refs(args@).len() == args@.len());
    assert(i as int == count);
    while i > 0
        invariant
            i <= params.len(),
            i <= args.len(),
            all == view::texts(params@),
            count == paired(all, view::type_refs(args@)),
            param_place(all, count, name@) == param_place(all, i as int, name@),
        decreases i,
    {
        assert(all[i - 1] == params@[i - 1]@);
        if same_text(params[i - 1].as_str(), name) {
            return Some(i - 1);
        }
        i -= 1;
    }
    None
}

/// Replaces the parameters of a type by arguments.
pub fn substitute_type(ty: &TypeRef, params: &Vec<String>, args: &Vec<TypeRef>) -> (result: TypeRef)
    ensures
        view::type_ref(result) == substituted(view::type_ref(*ty), view::texts(params@), view::type_refs(args@)),
    decreases ty,
{
    match ty {
        TypeRef::Named(name) => match find_param(params, args, name.as_str()) {
            Some(place) => {
                assert(view::type_refs(args@)[place as int] == view::type_ref(args@[place as int]));
                copy::type_ref(&args[place])
            }
            None => copy::type_ref(ty),
        },
        TypeRef::Instantiated { base, type_args } => TypeRef::Instantiated {
            base: base.clone(),
            type_args: substitute_types(type_args, params, args),
        },
        TypeRef::Mutable(inner) => TypeRef::Mutable(Box::new(substitute_type(inner, params, args))),
        TypeRef::Reference { inner, mutable } => TypeRef::Reference {
            inner: Box::new(substitute_type(inner, params, args)),
            mutable: *mutable,
        },
        TypeRef::Enum(tags) => TypeRef::Enum(substitute_tags(tags, params, args)),
        _ => copy::type_ref(ty),
    }
}

fn substitute_types(types: &Vec<TypeRef>, params: &Vec<String>, args: &Vec<TypeRef>) -> (result: Vec<TypeRef>)
    ensures
        view::type_refs(result@) == substituted_types(
            view::type_refs(types@),
            view::texts(params@),
            view::type_refs(args@),
        ),
    decreases types,
{
    let ghost all = view::type_refs(types@);
    let ghost names = view::texts(params@);
    let ghost given = view::type_refs(args@);
    let mut done: Vec<TypeRef> = Vec::new();
    let mut i: usize = 0;
    while i < types.len()
        invariant
            i <= types.len(),
            done.len() == i,
            all == view::type_refs(types@),
            names == view::texts(params@),
            given == view::type_refs(args@),
            forall|k: int| 0 <= k < i ==> view::type_refs(done@)[k] == substituted(all[k], names, given),
        decreases types.len() - i,
    {
        assert(all[i as int] == view::type_ref(types@[i as int]));
        let ghost before = done@;
        let next = substitute_type(&types[i], params, args);
        done.push(next);
        proof {
            view::lemma_type_refs_push(before, done@.last());
        }
        i += 1;
    }
    assert(view::type_refs(done@) =~= substituted_types(all, names, given));
    done
}

fn substitute_tags(tags: &Vec<EnumTag>, params: &Vec<String>, args: &Vec<TypeRef>) -> (result: Vec<EnumTag>)
    ensures
        view::enum_tags(result@) == substituted_tags(
            view::enum_tags(tags@),
            view::texts(params@),
            view::type_refs(args@),
        ),
    decreases tags,
{
    let ghost all = view::enum_tags(tags@);
    let ghost names = view::texts(params@);
    let ghost given = view::type_refs(args@);
    let mut done: Vec<EnumTag> = Vec::new();
    let mut i: usize = 0;
    while i < tags.len()
        invariant
            i <= tags.len(),
            done.len() == i,
            all == view::enum_tags(tags@),
            names == view::texts(params@),
            given == view::type_refs(args@),
            forall|k: int| 0 <= k < i ==> view::enum_tags(done@)[k] == substituted_tag(all[k], names, given),
        decreases tags.len() - i,
    {
        assert(all[i as int] == view::enum_tag(tags@[i as int]));
        let ghost before = done@;
        let next = substitute_tag(&tags[i], params, args);
        done.push(next);
        proof {
            view::lemma_enum_tags_push(before, done@.last());
        }
        i += 1;
    }
    assert(view::enum_tags(done@) =~= substituted_tags(all, names, given));
    done
}

fn substitute_tag(tag: &EnumTag, params: &Vec<String>, args: &Vec<TypeRef>) -> (result: EnumTag)
    ensures
        view::enum_tag(result) == substituted_tag(view::enum_tag(*tag), view::texts(params@), view::type_refs(args@)),
    decreases tag,
{
    EnumTag {
        name: tag.name.clone(),
        payload: match &tag.payload {
            Some(payload) => Some(substitute_type(payload, params, args)),
            None => None,
        },
    }
}

pub open spec fn alias_from(aliases: Seq<AliasEntryView>, from: int, name: Seq<char>) -> Option<TypeAliasView>
    decreases aliases.len() - from,
{
    if from < 0 || from >= aliases.len() {
        None
    } else if aliases[from].name == name {
        Some(aliases[from].alias)
    } else {
        alias_from(aliases, from + 1, name)
    }
}

pub open spec fn has_tag(tags: Seq<EnumTagView>, name: Seq<char>) -> bool {
    exists|i: int| 0 <= i < tags.len() && (#[trigger] tags[i]).name == name
}

/// Whether a type of this name and alias is a result or an option.
pub open spec fn fallible_alias(base: Seq<char>, alias: TypeAliasView) -> Option<Seq<char>> {
    match alias.body {
        TypeView::Enum(tags) => {
            let last = crate::execute::pattern::last_part(base);
            if last == "result"@ && alias.type_params.len() == 2 && has_tag(tags, "ok"@) && has_tag(tags, "err"@) {
                Some("result"@)
            } else if last == "option"@ && alias.type_params.len() == 1 && has_tag(tags, "some"@) && has_tag(
                tags,
                "none"@,
            ) {
                Some("option"@)
            } else {
                None
            }
        },
        _ => None,
    }
}

/// Whether a type is a result or an option that has to be handled.
pub open spec fn fallible(ty: TypeView, aliases: Seq<AliasEntryView>) -> Option<Seq<char>>
    decreases ty,
{
    match ty {
        TypeView::Mutable(inner) => fallible(*inner, aliases),
        TypeView::Reference { inner, .. } => fallible(*inner, aliases),
        TypeView::Named(base) => match alias_from(aliases, 0, base) {
            Some(alias) => fallible_alias(base, alias),
            None => None,
        },
        TypeView::Instantiated { base, .. } => match alias_from(aliases, 0, base) {
            Some(alias) => fallible_alias(base, alias),
            None => None,
        },
        _ => None,
    }
}

fn find_alias<'a>(aliases: &'a Vec<AliasEntry>, name: &str) -> (result: Option<&'a TypeAlias>)
    ensures
        match result {
            Some(alias) => alias_from(view::alias_entries(aliases@), 0, name@) == Some(view::type_alias(*alias)),
            None => alias_from(view::alias_entries(aliases@), 0, name@) is None,
        },
{
    let ghost all = view::alias_entries(aliases@);
    let mut i: usize = 0;
    while i < aliases.len()
        invariant
            i <= aliases.len(),
            all == view::alias_entries(aliases@),
            alias_from(all, 0, name@) == alias_from(all, i as int, name@),
        decreases aliases.len() - i,
    {
        assert(all[i as int] == view::alias_entry(aliases@[i as int]));
        if same_text(aliases[i].name.as_str(), name) {
            return Some(&aliases[i].alias);
        }
        i += 1;
    }
    None
}

fn contains_tag(tags: &Vec<EnumTag>, name: &str) -> (result: bool)
    ensures
        result == has_tag(view::enum_tags(tags@), name@),
{
    let ghost all = view::enum_tags(tags@);
    let mut i: usize = 0;
    while i < tags.len()
        invariant
            i <= tags.len(),
            all == view::enum_tags(tags@),
            forall|k: int| 0 <= k < i ==> (#[trigger] all[k]).name != name@,
        decreases tags.len() - i,
    {
        assert(all[i as int] == view::enum_tag(tags@[i as int]));
        if same_text(tags[i].name.as_str(), name) {
            return true;
        }
        i += 1;
    }
    false
}

pub open spec fn kind_view(kind: Option<&'static str>) -> Option<Seq<char>> {
    match kind {
        Some(kind) => Some(kind@),
        None => None,
    }
}

fn alias_kind(base: &str, alias: &TypeAlias) -> (kind: Option<&'static str>)
    ensures
        kind_view(kind) == fallible_alias(base@, view::type_alias(*alias)),
{
    match &alias.body {
        TypeRef::Enum(tags) => {
            let last = strip_type_enum_suffix(base);
            assert(view::texts(alias.type_params@).len() == alias.type_params@.len());
            if same_text(last.as_str(), "result") && alias.type_params.len() == 2 && contains_tag(tags, "ok")
                && contains_tag(tags, "err") {
                Some("result")
            } else if same_text(last.as_str(), "option") && alias.type_params.len() == 1 && contains_tag(tags, "some")
                && contains_tag(tags, "none") {
                Some("option")
            } else {
                None
            }
        }
        _ => None,
    }
}

fn fallible_kind(ty: &TypeRef, aliases: &Vec<AliasEntry>) -> (kind: Option<&'static str>)
    ensures
        kind_view(kind) == fallible(view::type_ref(*ty), view::alias_entries(aliases@)),
    decreases ty,
{
    match ty {
        TypeRef::Mutable(inner) => fallible_kind(inner, aliases),
        TypeRef::Reference { inner, .. } => fallible_kind(inner, aliases),
        TypeRef::Named(base) => match find_alias(aliases, base.as_str()) {
            Some(alias) => alias_kind(base.as_str(), alias),
            None => None,
        },
        TypeRef::Instantiated { base, .. } => match find_alias(aliases, base.as_str()) {
            Some(alias) => alias_kind(base.as_str(), alias),
            None => None,
        },
        _ => None,
    }
}

// Bindings.

pub struct BindingView {
    pub name: Seq<char>,
    pub ty: Option<TypeView>,
    pub read: bool,
    pub report: bool,
    pub reported: bool,
}

/// The bindings seen so far, the scopes that are open, innermost last, and what
/// was found. A scope lists its names with the numbers of their bindings.
pub struct AnalysisView {
    pub bindings: Seq<BindingView>,
    pub scopes: Seq<Seq<(Seq<char>, int)>>,
    pub warnings: Seq<Seq<char>>,
}

/// What the analysis looks things up in.
pub struct ContextView {
    pub functions: Seq<FunctionEntryView>,
    pub aliases: Seq<AliasEntryView>,
}

/// The binding of a name in a scope: the last one declared.
pub open spec fn in_scope(scope: Seq<(Seq<char>, int)>, count: int, name: Seq<char>) -> Option<int>
    decreases count,
{
    if count <= 0 || count > scope.len() {
        None
    } else if scope[count - 1].0 == name {
        Some(scope[count - 1].1)
    } else {
        in_scope(scope, count - 1, name)
    }
}

/// The binding of a name in the innermost of the first `count` scopes.
pub open spec fn resolved(scopes: Seq<Seq<(Seq<char>, int)>>, count: int, name: Seq<char>) -> Option<int>
    decreases count,
{
    if count <= 0 || count > scopes.len() {
        None
    } else {
        match in_scope(scopes[count - 1], scopes[count - 1].len() as int, name) {
            Some(id) => Some(id),
            None => resolved(scopes, count - 1, name),
        }
    }
}

impl AnalysisView {
    pub open spec fn lookup(self, name: Seq<char>) -> Option<int> {
        resolved(self.scopes, self.scopes.len() as int, name)
    }

    pub open spec fn declared(self, name: Seq<char>, ty: Option<TypeView>, report: bool) -> AnalysisView {
        if name == "_"@ || self.scopes.len() == 0 {
            self
        } else {
            let last = self.scopes.len() - 1;
            AnalysisView {
                bindings: self.bindings.push(BindingView { name, ty, read: false, report, reported: false }),
                scopes: self.scopes.update(last, self.scopes[last].push((name, self.bindings.len() as int))),
                warnings: self.warnings,
            }
        }
    }

    pub open spec fn marked(self, name: Seq<char>) -> AnalysisView {
        match self.lookup(name) {
            Some(id) => if 0 <= id < self.bindings.len() {
                AnalysisView {
                    bindings: self.bindings.update(id, BindingView { read: true, ..self.bindings[id] }),
                    ..self
                }
            } else {
                self
            },
            None => self,
        }
    }

    pub open spec fn type_of(self, name: Seq<char>) -> Option<TypeView> {
        match self.lookup(name) {
            Some(id) => if 0 <= id < self.bindings.len() {
                self.bindings[id].ty
            } else {
                None
            },
            None => None,
        }
    }

    pub open spec fn warned(self, text: Seq<char>) -> AnalysisView {
        AnalysisView { warnings: self.warnings.push(text), ..self }
    }

    /// One binding of a scope that ends: a binding that was never read is
    /// reported once.
    pub open spec fn checked(self, id: int) -> AnalysisView {
        if 0 <= id < self.bindings.len() && self.bindings[id].report && !self.bindings[id].read
            && !self.bindings[id].reported {
            AnalysisView {
                bindings: self.bindings.update(id, BindingView { reported: true, ..self.bindings[id] }),
                ..self
            }.warned(unused_text(self.bindings[id].name))
        } else {
            self
        }
    }

    pub open spec fn opened(self) -> AnalysisView {
        AnalysisView { scopes: self.scopes.push(Seq::empty()), ..self }
    }

    /// The innermost scope ends.
    pub open spec fn finished(self) -> AnalysisView {
        if self.scopes.len() == 0 {
            self
        } else {
            let scope = self.scopes.last();
            AnalysisView { scopes: self.scopes.drop_last(), ..self }.all_checked(scope, 0)
        }
    }

    pub open spec fn all_checked(self, scope: Seq<(Seq<char>, int)>, from: int) -> AnalysisView
        decreases scope.len() - from,
    {
        if from < 0 || from >= scope.len() {
            self
        } else {
            self.checked(scope[from].1).all_checked(scope, from + 1)
        }
    }
}

pub open spec fn unused_text(name: Seq<char>) -> Seq<char> {
    "W-BIND-001: binding `"@ + name + "` is never read; remove it or replace it with `_`"@
}

pub open spec fn unhandled_text(kind: Seq<char>, source: Seq<char>) -> Seq<char> {
    "W-RESULT-001: "@ + kind + " value from `"@ + source
        + "` is not handled in statement position; use `match`, bind it with `let`, or discard it with `(let _ ...)`"@
}

/// The type of a call's value.
pub open spec fn call_type(call: CallView, functions: Seq<FunctionEntryView>) -> Option<TypeView> {
    match crate::execute::semantics::function_from(functions, 0, call.callee_key) {
        Some(signature) => Some(substituted(signature.return_type, signature.type_params, call.type_args)),
        None => None,
    }
}

/// The type of an expression, as far as its form tells.
pub open spec fn expr_type(expr: ExprView, analysis: AnalysisView) -> Option<TypeView>
    decreases expr,
{
    match expr {
        ExprView::Value(ValueView::Typed { type_ref, .. }) => Some(type_ref),
        ExprView::Value(ValueView::Enum { enum_key, .. }) => Some(TypeView::Named(enum_key)),
        ExprView::Value(_) => None,
        ExprView::VarRef(name) => analysis.type_of(name),
        ExprView::Mutable(inner) => expr_type(*inner, analysis),
        ExprView::Reference { target, .. } => expr_type(*target, analysis),
        ExprView::Call { return_type, .. } => Some(return_type),
        ExprView::HostCall { return_type, .. } => Some(return_type),
        ExprView::Primitive { return_type, .. } => Some(return_type),
        ExprView::Cast { target, .. } => Some(target),
        ExprView::PolicyNarrow { target, .. } => Some(target),
        ExprView::EnumConstructor { enum_key, .. } => Some(TypeView::Named(enum_key)),
        ExprView::If { then_e, else_e, .. } => match expr_type(*then_e, analysis) {
            Some(then_type) => if expr_type(*else_e, analysis) == Some(then_type) {
                Some(then_type)
            } else {
                None
            },
            None => None,
        },
        ExprView::Record(_) | ExprView::Tuple(_) | ExprView::Array(_) | ExprView::Mapping(_) => None,
        ExprView::Range { .. } => Some(TypeView::Range),
    }
}

/// A value that a statement drops is reported when it has to be handled.
pub open spec fn dropped(
    ty: Option<TypeView>,
    source: Seq<char>,
    context: ContextView,
    analysis: AnalysisView,
) -> AnalysisView {
    match ty {
        Some(ty) => match fallible(ty, context.aliases) {
            Some(kind) => analysis.warned(unhandled_text(kind, source)),
            None => analysis,
        },
        None => analysis,
    }
}

/// The variables that an expression reads are marked.
pub open spec fn reads(expr: ExprView, analysis: AnalysisView) -> AnalysisView
    decreases expr, 0int,
{
    match expr {
        ExprView::Value(_) => analysis,
        ExprView::VarRef(name) => analysis.marked(name),
        ExprView::Mutable(inner) => reads(*inner, analysis),
        ExprView::Cast { from, .. } => reads(*from, analysis),
        ExprView::PolicyNarrow { from, .. } => reads(*from, analysis),
        ExprView::Reference { target, .. } => reads(*target, analysis),
        ExprView::Call { call, .. } => reads_call(call, analysis),
        ExprView::HostCall { args, .. } => reads_all(args, 0, analysis),
        ExprView::Primitive { args, .. } => reads_all(args, 0, analysis),
        ExprView::EnumConstructor { payload, .. } => match payload {
            Some(payload) => reads(*payload, analysis),
            None => analysis,
        },
        ExprView::Record(fields) => reads_fields(fields, 0, analysis),
        ExprView::Tuple(items) => reads_all(items, 0, analysis),
        ExprView::Array(items) => reads_all(items, 0, analysis),
        ExprView::Mapping(items) => reads_pairs(items, 0, analysis),
        ExprView::Range { start, end, step } => reads(*step, reads(*end, reads(*start, analysis))),
        ExprView::If { cond, then_e, else_e } => reads(*else_e, reads(*then_e, reads(*cond, analysis))),
    }
}

pub open spec fn reads_call(call: CallView, analysis: AnalysisView) -> AnalysisView
    decreases call, 0int,
{
    reads_all(call.args, 0, analysis)
}

pub open spec fn reads_all(exprs: Seq<ExprView>, from: int, analysis: AnalysisView) -> AnalysisView
    decreases exprs, exprs.len() - from,
{
    if from < 0 || from >= exprs.len() {
        analysis
    } else {
        reads_all(exprs, from + 1, reads(exprs[from], analysis))
    }
}

pub open spec fn reads_fields(fields: Seq<FieldExprView>, from: int, analysis: AnalysisView) -> AnalysisView
    decreases fields, fields.len() - from,
{
    if from < 0 || from >= fields.len() {
        analysis
    } else {
        reads_fields(fields, from + 1, reads(fields[from].value, analysis))
    }
}

pub open spec fn reads_pairs(items: Seq<(ExprView, ExprView)>, from: int, analysis: AnalysisView) -> AnalysisView
    decreases items, items.len() - from,
{
    if from < 0 || from >= items.len() {
        analysis
    } else {
        reads_pairs(items, from + 1, reads(items[from].1, reads(items[from].0, analysis)))
    }
}

pub open spec fn marked_all(names: Seq<Seq<char>>, from: int, analysis: AnalysisView) -> AnalysisView
    decreases names.len() - from,
{
    if from < 0 || from >= names.len() {
        analysis
    } else {
        marked_all(names, from + 1, analysis.marked(names[from]))
    }
}

/// The variables that a pattern binds are declared.
pub open spec fn binds(pattern: PatternView, expected: Option<TypeView>, analysis: AnalysisView) -> AnalysisView
    decreases pattern, 0int,
{
    match pattern {
        PatternView::Wildcard | PatternView::Literal(_) | PatternView::Interface(_) => analysis,
        PatternView::Bind(name) => analysis.declared(name, expected, true),
        PatternView::Enum { payload, .. } => match payload {
            Some(payload) => binds(*payload, None, analysis),
            None => analysis,
        },
        PatternView::Record(fields) => binds_fields(fields, 0, analysis),
        PatternView::Tuple(items) => binds_all(items, 0, analysis),
        PatternView::Array(items) => binds_all(items, 0, analysis),
        PatternView::Mapping(items) => binds_pairs(items, 0, analysis),
        PatternView::Newtype { inner, .. } => binds(*inner, expected, analysis),
    }
}

pub open spec fn binds_fields(fields: Seq<FieldPatternView>, from: int, analysis: AnalysisView) -> AnalysisView
    decreases fields, fields.len() - from,
{
    if from < 0 || from >= fields.len() {
        analysis
    } else {
        binds_fields(fields, from + 1, binds(fields[from].pattern, None, analysis))
    }
}

pub open spec fn binds_all(items: Seq<PatternView>, from: int, analysis: AnalysisView) -> AnalysisView
    decreases items, items.len() - from,
{
    if from < 0 || from >= items.len() {
        analysis
    } else {
        binds_all(items, from + 1, binds(items[from], None, analysis))
    }
}

pub open spec fn binds_pairs(items: Seq<(PatternView, PatternView)>, from: int, analysis: AnalysisView) -> AnalysisView
    decreases items, items.len() - from,
{
    if from < 0 || from >= items.len() {
        analysis
    } else {
        binds_pairs(items, from + 1, binds(items[from].1, None, binds(items[from].0, None, analysis)))
    }
}

pub open spec fn let_analysis(value: LetValueView, context: ContextView, analysis: AnalysisView) -> (
    AnalysisView,
    Option<TypeView>,
) {
    match value {
        LetValueView::Call(call) => (reads_call(call, analysis), call_type(call, context.functions)),
        LetValueView::Expr(expr) => {
            let after = reads(expr, analysis);
            (after, expr_type(expr, after))
        },
    }
}

/// A statement is analysed. A value that the last statement of a sequence has
/// is the sequence's own.
pub open spec fn analysed(
    statement: StatementView,
    is_final: bool,
    context: ContextView,
    analysis: AnalysisView,
) -> AnalysisView
    decreases statement, 0int, 0int,
{
    match statement {
        StatementView::Call(call) => {
            let after = reads_call(call, analysis);
            if is_final {
                after
            } else {
                dropped(call_type(call, context.functions), call.callee_key, context, after)
            }
        },
        StatementView::Eval(expr) => {
            let after = reads(expr, analysis);
            if is_final {
                after
            } else {
                dropped(expr_type(expr, after), "expression"@, context, after)
            }
        },
        StatementView::Let { var, value } => {
            let (after, ty) = let_analysis(value, context, analysis);
            after.declared(var, ty, true)
        },
        StatementView::Assign { var, value } => reads(value, analysis).marked(var),
        StatementView::Return(expr) => reads(expr, analysis),
        StatementView::Match { target, arms } => analysed_arms(
            arms,
            0,
            target,
            context,
            reads(target, analysis),
        ),
        StatementView::If { cond, then_body, else_body } => analysed_scope(
            else_body,
            context,
            analysed_scope(then_body, context, reads(cond, analysis)),
        ),
        StatementView::While { cond, body } => analysed_scope(body, context, reads(cond, analysis)),
        StatementView::For { var, source, body } => analysed_sequence(
            body,
            0,
            context,
            reads(source, analysis).opened().declared(var, None, false),
        ).finished(),
        StatementView::Task { captures, body } => analysed_scope(body, context, marked_all(captures, 0, analysis)),
        StatementView::Spawn { captures, value, .. } => reads(value, marked_all(captures, 0, analysis)),
        StatementView::Join { handle, .. } => analysis.marked(handle),
        StatementView::Break | StatementView::Continue => analysis,
    }
}

pub open spec fn analysed_sequence(
    statements: Seq<StatementView>,
    from: int,
    context: ContextView,
    analysis: AnalysisView,
) -> AnalysisView
    decreases statements, 0int, statements.len() - from,
{
    if from < 0 || from >= statements.len() {
        analysis
    } else {
        analysed_sequence(
            statements,
            from + 1,
            context,
            analysed(statements[from], from + 1 == statements.len(), context, analysis),
        )
    }
}

/// A body in a scope of its own.
pub open spec fn analysed_scope(
    statements: Seq<StatementView>,
    context: ContextView,
    analysis: AnalysisView,
) -> AnalysisView
    decreases statements, 1int, 0int,
{
    analysed_sequence(statements, 0, context, analysis.opened()).finished()
}

pub open spec fn analysed_arms(
    arms: Seq<MatchArmView>,
    from: int,
    target: ExprView,
    context: ContextView,
    analysis: AnalysisView,
) -> AnalysisView
    decreases arms, 0int, arms.len() - from,
{
    if from < 0 || from >= arms.len() {
        analysis
    } else {
        let inside = analysis.opened();
        let bound = binds(arms[from].pattern, expr_type(target, inside), inside);
        analysed_arms(
            arms,
            from + 1,
            target,
            context,
            analysed_sequence(arms[from].body, 0, context, bound).finished(),
        )
    }
}

pub open spec fn parameters_declared(parameters: Seq<TypedNameView>, from: int, analysis: AnalysisView) -> AnalysisView
    decreases parameters.len() - from,
{
    if from < 0 || from >= parameters.len() {
        analysis
    } else {
        parameters_declared(
            parameters,
            from + 1,
            analysis.declared(parameters[from].name, Some(parameters[from].ty), false),
        )
    }
}

/// What is found in a body, behind the warnings there are.
pub open spec fn body_warnings(
    statements: Seq<StatementView>,
    parameters: Seq<TypedNameView>,
    context: ContextView,
    warnings: Seq<Seq<char>>,
) -> Seq<Seq<char>> {
    let start = AnalysisView { bindings: Seq::empty(), scopes: seq![Seq::empty()], warnings };
    analysed_scope(statements, context, parameters_declared(parameters, 0, start)).warnings
}

/// What is found in the bodies of `functions[from..]` that the program itself
/// defines.
pub open spec fn function_warnings(context: ContextView, from: int, warnings: Seq<Seq<char>>) -> Seq<Seq<char>>
    decreases context.functions.len() - from,
{
    if from < 0 || from >= context.functions.len() {
        warnings
    } else {
        let signature = context.functions[from].signature;
        function_warnings(
            context,
            from + 1,
            match signature.body {
                FunctionBodyView::User { statements } => if signature.alias.len() == 0 {
                    body_warnings(statements, signature.parameters, context, warnings)
                } else {
                    warnings
                },
                _ => warnings,
            },
        )
    }
}

#[derive(Debug)]
struct BindingState {
    name: String,
    ty: Option<TypeRef>,
    read: bool,
    report: bool,
    reported: bool,
}

/// The analysis of one body.
#[derive(Debug)]
struct BindingAnalysis {
    bindings: Vec<BindingState>,
    scopes: Vec<Vec<(String, usize)>>,
    warnings: Vec<String>,
}

struct BodyContext<'a> {
    functions: &'a Vec<FunctionEntry>,
    aliases: &'a Vec<AliasEntry>,
}

impl<'a> BodyContext<'a> {
    spec fn view(&self) -> ContextView {
        ContextView {
            functions: view::function_entries(self.functions@),
            aliases: view::alias_entries(self.aliases@),
        }
    }
}

spec fn type_view(ty: Option<TypeRef>) -> Option<TypeView> {
    match ty {
        Some(ty) => Some(view::type_ref(ty)),
        None => None,
    }
}

spec fn binding_view(state: BindingState) -> BindingView {
    BindingView {
        name: state.name@,
        ty: type_view(state.ty),
        read: state.read,
        report: state.report,
        reported: state.reported,
    }
}

spec fn binding_views(states: Seq<BindingState>) -> Seq<BindingView> {
    Seq::new(states.len(), |i: int| binding_view(states[i]))
}

spec fn scope_view(scope: Seq<(String, usize)>) -> Seq<(Seq<char>, int)> {
    Seq::new(scope.len(), |i: int| (scope[i].0@, scope[i].1 as int))
}

spec fn scope_views(scopes: Seq<Vec<(String, usize)>>) -> Seq<Seq<(Seq<char>, int)>> {
    Seq::new(scopes.len(), |i: int| scope_view(scopes[i]@))
}

fn copy_type(ty: &Option<TypeRef>) -> (result: Option<TypeRef>)
    ensures
        type_view(result) == type_view(*ty),
{
    match ty {
        Some(ty) => Some(copy::type_ref(ty)),
        None => None,
    }
}

fn call_return_type(call: &Call, functions: &Vec<FunctionEntry>) -> (ty: Option<TypeRef>)
    ensures
        type_view(ty) == call_type(view::call(*call), view::function_entries(functions@)),
{
    match find_function(functions, call.callee_key.as_str()) {
        Some(signature) => Some(substitute_type(&signature.return_type, &signature.type_params, &call.type_args)),
        None => None,
    }
}

impl BindingAnalysis {
    spec fn view(&self) -> AnalysisView {
        AnalysisView {
            bindings: binding_views(self.bindings@),
            scopes: scope_views(self.scopes@),
            warnings: view::texts(self.warnings@),
        }
    }

    fn resolve(&self, name: &str) -> (id: Option<usize>)
        ensures
            self@.lookup(name@) == (match id {
                Some(id) => Some(id as int),
                None => None,
            }),
    {
        let ghost all = scope_views(self.scopes@);
        let mut i: usize = self.scopes.len();
        while i > 0
            invariant
                i <= self.scopes.len(),
                all == scope_views(self.scopes@),
                resolved(all, all.len() as int, name@) == resolved(all, i as int, name@),
            decreases i,
        {
            let scope = &self.scopes[i - 1];
            let ghost names = scope_view(scope@);
            assert(all[i - 1] == names);
            let mut j: usize = scope.len();
            while j > 0
                invariant
                    0 < i <= self.scopes.len(),
                    j <= scope.len(),
                    all == scope_views(self.scopes@),
                    names == scope_view(scope@),
                    all[i - 1] == names,
                    resolved(all, all.len() as int, name@) == resolved(all, i as int, name@),
                    in_scope(names, names.len() as int, name@) == in_scope(names, j as int, name@),
                decreases j,
            {
                assert(names[j - 1] == (scope@[j - 1].0@, scope@[j - 1].1 as int));
                if same_text(scope[j - 1].0.as_str(), name) {
                    return Some(scope[j - 1].1);
                }
                j -= 1;
            }
            i -= 1;
        }
        None
    }

    fn declare(&mut self, name: &str, ty: Option<TypeRef>, report: bool)
        ensures
            final(self)@ == old(self)@.declared(name@, type_view(ty), report),
    {
        if same_text(name, "_") || self.scopes.len() == 0 {
            return;
        }
        let ghost before = self@;
        let id: usize = self.bindings.len();
        let last: usize = self.scopes.len() - 1;
        let ghost held = type_view(ty);
        let ghost inner = self.scopes@[last as int]@;
        self.bindings.push(BindingState { name: owned(name), ty, read: false, report, reported: false });
        self.scopes[last].push((owned(name), id));
        proof {
            let expected = before.declared(name@, held, report);
            assert(binding_views(self.bindings@) =~= expected.bindings);
            assert(scope_view(self.scopes@[last as int]@) =~= before.scopes[last as int].push((name@, id as int)));
            assert forall|k: int| 0 <= k < expected.scopes.len() implies scope_views(self.scopes@)[k]
                == expected.scopes[k] by {}
            assert(scope_views(self.scopes@) =~= expected.scopes);
        }
    }

    fn mark_read(&mut self, name: &str)
        ensures
            final(self)@ == old(self)@.marked(name@),
    {
        match self.resolve(name) {
            Some(id) => {
                if id < self.bindings.len() {
                    let ghost before = self@;
                    self.bindings[id].read = true;
                    proof {
                        let expected = before.marked(name@);
                        assert(binding_views(self.bindings@) =~= expected.bindings);
                    }
                }
            }
            None => {}
        }
    }

    fn type_of(&self, name: &str) -> (ty: Option<TypeRef>)
        ensures
            type_view(ty) == self@.type_of(name@),
    {
        match self.resolve(name) {
            Some(id) => {
                if id < self.bindings.len() {
                    assert(self@.bindings[id as int] == binding_view(self.bindings@[id as int]));
                    copy_type(&self.bindings[id].ty)
                } else {
                    None
                }
            }
            None => None,
        }
    }

    fn warn(&mut self, text: String)
        ensures
            final(self)@ == old(self)@.warned(text@),
    {
        let ghost before = self.warnings@;
        self.warnings.push(text);
        proof {
            view::lemma_texts_push(before, self.warnings@.last());
        }
    }

    fn check(&mut self, id: usize)
        ensures
            final(self)@ == old(self)@.checked(id as int),
    {
        if id < self.bindings.len() {
            assert(self@.bindings[id as int] == binding_view(self.bindings@[id as int]));
            if self.bindings[id].report && !self.bindings[id].read && !self.bindings[id].reported {
                let ghost before = self@;
                self.bindings[id].reported = true;
                assert(binding_views(self.bindings@) =~= before.bindings.update(
                    id as int,
                    BindingView { reported: true, ..before.bindings[id as int] },
                ));
                let text = concat_three(
                    "W-BIND-001: binding `",
                    self.bindings[id].name.as_str(),
                    "` is never read; remove it or replace it with `_`",
                );
                self.warn(text);
            }
        }
    }

    fn open_scope(&mut self)
        ensures
            final(self)@ == old(self)@.opened(),
    {
        let ghost before = self@;
        let empty: Vec<(String, usize)> = Vec::new();
        assert(scope_view(empty@) =~= Seq::<(Seq<char>, int)>::empty());
        self.scopes.push(empty);
        assert(scope_views(self.scopes@) =~= before.scopes.push(Seq::empty()));
    }

    fn finish_scope(&mut self)
        ensures
            final(self)@ == old(self)@.finished(),
    {
        let ghost before = self@;
        match self.scopes.pop() {
            Some(scope) => {
                let ghost names = scope_view(scope@);
                assert(scope_views(self.scopes@) =~= before.scopes.drop_last());
                assert(before.scopes.last() =~= names);
                let ghost start = self@;
                let mut i: usize = 0;
                while i < scope.len()
                    invariant
                        i <= scope.len(),
                        names == scope_view(scope@),
                        start.all_checked(names, 0) == self@.all_checked(names, i as int),
                    decreases scope.len() - i,
                {
                    assert(names[i as int].1 == scope@[i as int].1 as int);
                    self.check(scope[i].1);
                    i += 1;
                }
            }
            None => {
                assert(before.scopes.len() == 0);
            }
        }
    }

    fn expr_type(&self, expr: &Expr) -> (ty: Option<TypeRef>)
        ensures
            type_view(ty) == self::expr_type(view::expr(*expr), self@),
        decreases expr,
    {
        match expr {
            Expr::Value(value) => match value {
                RuntimeValue::Typed { type_ref, .. } => Some(copy::type_ref(type_ref)),
                RuntimeValue::Enum { enum_key, .. } => Some(TypeRef::Named(enum_key.clone())),
                _ => None,
            },
            Expr::VarRef(name) => self.type_of(name.as_str()),
            Expr::Mutable(inner) => self.expr_type(inner),
            Expr::Reference { target, .. } => self.expr_type(target),
            Expr::Call { return_type, .. } => Some(copy::type_ref(return_type)),
            Expr::HostCall { return_type, .. } => Some(copy::type_ref(return_type)),
            Expr::Primitive { return_type, .. } => Some(copy::type_ref(return_type)),
            Expr::Cast { target, .. } => Some(copy::type_ref(target)),
            Expr::PolicyNarrow { target, .. } => Some(copy::type_ref(target)),
            Expr::EnumConstructor { enum_key, .. } => Some(TypeRef::Named(enum_key.clone())),
            Expr::If { then_e, else_e, .. } => {
                let then_type = match self.expr_type(then_e) {
                    Some(then_type) => then_type,
                    None => return None,
                };
                match self.expr_type(else_e) {
                    Some(else_type) => {
                        if same_type(&then_type, &else_type) {
                            Some(then_type)
                        } else {
                            None
                        }
                    }
                    None => None,
                }
            }
            Expr::Record(_) | Expr::Tuple(_) | Expr::Array(_) | Expr::Mapping(_) => None,
            Expr::Range { .. } => Some(TypeRef::Range),
        }
    }

    fn warn_if_unhandled(&mut self, ty: Option<TypeRef>, source: &str, context: &BodyContext)
        ensures
            final(self)@ == dropped(type_view(ty), source@, context.view(), old(self)@),
    {
        match ty {
            Some(ty) => match fallible_kind(&ty, context.aliases) {
                Some(kind) => {
                    let text = concat_five(
                        "W-RESULT-001: ",
                        kind,
                        " value from `",
                        source,
                        "` is not handled in statement position; use `match`, bind it with `let`, or discard it with `(let _ ...)`",
                    );
                    self.warn(text);
                }
                None => {}
            },
            None => {}
        }
    }

    fn walk_expr_reads(&mut self, expr: &Expr)
        ensures
            final(self)@ == reads(view::expr(*expr), old(self)@),
        decreases expr, 0int,
    {
        match expr {
            Expr::Value(_) => {}
            Expr::VarRef(name) => self.mark_read(name.as_str()),
            Expr::Mutable(inner) => self.walk_expr_reads(inner),
            Expr::Cast { from, .. } => self.walk_expr_reads(from),
            Expr::PolicyNarrow { from, .. } => self.walk_expr_reads(from),
            Expr::Reference { target, .. } => self.walk_expr_reads(target),
            Expr::Call { call, .. } => self.walk_call_reads(call),
            Expr::HostCall { args, .. } => self.walk_all_reads(args),
            Expr::Primitive { args, .. } => self.walk_all_reads(args),
            Expr::EnumConstructor { payload, .. } => match payload {
                Some(payload) => self.walk_expr_reads(payload),
                None => {}
            },
            Expr::Record(fields) => self.walk_field_reads(fields),
            Expr::Tuple(items) => self.walk_all_reads(items),
            Expr::Array(items) => self.walk_all_reads(items),
            Expr::Mapping(items) => self.walk_pair_reads(items),
            Expr::Range { start, end, step } => {
                self.walk_expr_reads(start);
                self.walk_expr_reads(end);
                self.walk_expr_reads(step);
            }
            Expr::If { cond, then_e, else_e } => {
                self.walk_expr_reads(cond);
                self.walk_expr_reads(then_e);
                self.walk_expr_reads(else_e);
            }
        }
    }

    fn walk_call_reads(&mut self, call: &Call)
        ensures
            final(self)@ == reads_call(view::call(*call), old(self)@),
        decreases call, 0int,
    {
        self.walk_all_reads(&call.args);
    }

    fn walk_all_reads(&mut self, exprs: &Vec<Expr>)
        ensures
            final(self)@ == reads_all(view::exprs(exprs@), 0, old(self)@),
        decreases exprs, 0int,
    {
        let ghost all = view::exprs(exprs@);
        let ghost start = self@;
        let mut i: usize = 0;
        while i < exprs.len()
            invariant
                i <= exprs.len(),
                all == view::exprs(exprs@),
                start == old(self)@,
                reads_all(all, 0, start) == reads_all(all, i as int, self@),
            decreases exprs.len() - i,
        {
            assert(all[i as int] == view::expr(exprs@[i as int]));
            self.walk_expr_reads(&exprs[i]);
            i += 1;
        }
    }

    fn walk_field_reads(&mut self, fields: &Vec<FieldExpr>)
        ensures
            final(self)@ == reads_fields(view::field_exprs(fields@), 0, old(self)@),
        decreases fields, 0int,
    {
        let ghost all = view::field_exprs(fields@);
        let ghost start = self@;
        let mut i: usize = 0;
        while i < fields.len()
            invariant
                i <= fields.len(),
                all == view::field_exprs(fields@),
                start == old(self)@,
                reads_fields(all, 0, start) == reads_fields(all, i as int, self@),
            decreases fields.len() - i,
        {
            assert(all[i as int] == view::field_expr(fields@[i as int]));
            self.walk_expr_reads(&fields[i].value);
            i += 1;
        }
    }

    fn walk_pair_reads(&mut self, items: &Vec<(Expr, Expr)>)
        ensures
            final(self)@ == reads_pairs(view::expr_pairs(items@), 0, old(self)@),
        decreases items, 0int,
    {
        let ghost all = view::expr_pairs(items@);
        let ghost start = self@;
        let mut i: usize = 0;
        while i < items.len()
            invariant
                i <= items.len(),
                all == view::expr_pairs(items@),
                start == old(self)@,
                reads_pairs(all, 0, start) == reads_pairs(all, i as int, self@),
            decreases items.len() - i,
        {
            assert(all[i as int] == (view::expr(items@[i as int].0), view::expr(items@[i as int].1)));
            self.walk_expr_reads(&items[i].0);
            self.walk_expr_reads(&items[i].1);
            i += 1;
        }
    }

    fn mark_all(&mut self, names: &Vec<String>)
        ensures
            final(self)@ == marked_all(view::texts(names@), 0, old(self)@),
    {
        let ghost all = view::texts(names@);
        let ghost start = self@;
        let mut i: usize = 0;
        while i < names.len()
            invariant
                i <= names.len(),
                all == view::texts(names@),
                start == old(self)@,
                marked_all(all, 0, start) == marked_all(all, i as int, self@),
            decreases names.len() - i,
        {
            assert(all[i as int] == names@[i as int]@);
            self.mark_read(names[i].as_str());
            i += 1;
        }
    }

    fn walk_pattern(&mut self, pattern: &Pattern, expected: &Option<TypeRef>)
        ensures
            final(self)@ == binds(view::pattern(*pattern), type_view(*expected), old(self)@),
        decreases pattern, 0int,
    {
        match pattern {
            Pattern::Wildcard | Pattern::Literal(_) | Pattern::Interface(_) => {}
            Pattern::Bind(name) => self.declare(name.as_str(), copy_type(expected), true),
            Pattern::Enum { payload, .. } => match payload {
                Some(payload) => self.walk_pattern(payload, &None),
                None => {}
            },
            Pattern::Record(fields) => self.walk_field_patterns(fields),
            Pattern::Tuple(items) => self.walk_patterns(items),
            Pattern::Array(items) => self.walk_patterns(items),
            Pattern::Mapping(items) => self.walk_pattern_pairs(items),
            Pattern::Newtype { inner, .. } => self.walk_pattern(inner, expected),
        }
    }

    fn walk_field_patterns(&mut self, fields: &Vec<FieldPattern>)
        ensures
            final(self)@ == binds_fields(view::field_patterns(fields@), 0, old(self)@),
        decreases fields, 0int,
    {
        let ghost all = view::field_patterns(fields@);
        let ghost start = self@;
        let mut i: usize = 0;
        while i < fields.len()
            invariant
                i <= fields.len(),
                all == view::field_patterns(fields@),
                start == old(self)@,
                binds_fields(all, 0, start) == binds_fields(all, i as int, self@),
            decreases fields.len() - i,
        {
            assert(all[i as int] == view::field_pattern(fields@[i as int]));
            self.walk_pattern(&fields[i].pattern, &None);
            i += 1;
        }
    }

    fn walk_patterns(&mut self, items: &Vec<Pattern>)
        ensures
            final(self)@ == binds_all(view::patterns(items@), 0, old(self)@),
        decreases items, 0int,
    {
        let ghost all = view::patterns(items@);
        let ghost start = self@;
        let mut i: usize = 0;
        while i < items.len()
            invariant
                i <= items.len(),
                all == view::patterns(items@),
                start == old(self)@,
                binds_all(all, 0, start) == binds_all(all, i as int, self@),
            decreases items.len() - i,
        {
            assert(all[i as int] == view::pattern(items@[i as int]));
            self.walk_pattern(&items[i], &None);
            i += 1;
        }
    }

    fn walk_pattern_pairs(&mut self, items: &Vec<(Pattern, Pattern)>)
        ensures
            final(self)@ == binds_pairs(view::pattern_pairs(items@), 0, old(self)@),
        decreases items, 0int,
    {
        let ghost all = view::pattern_pairs(items@);
        let ghost start = self@;
        let mut i: usize = 0;
        while i < items.len()
            invariant
                i <= items.len(),
                all == view::pattern_pairs(items@),
                start == old(self)@,
                binds_pairs(all, 0, start) == binds_pairs(all, i as int, self@),
            decreases items.len() - i,
        {
            assert(all[i as int] == (view::pattern(items@[i as int].0), view::pattern(items@[i as int].1)));
            self.walk_pattern(&items[i].0, &None);
            self.walk_pattern(&items[i].1, &None);
            i += 1;
        }
    }

    fn walk_let(&mut self, value: &LetValue, context: &BodyContext) -> (ty: Option<TypeRef>)
        ensures
            (final(self)@, type_view(ty)) == let_analysis(view::let_value(*value), context.view(), old(self)@),
    {
        match value {
            LetValue::Call(call) => {
                self.walk_call_reads(call);
                call_return_type(call, context.functions)
            }
            LetValue::Expr(expr) => {
                self.walk_expr_reads(expr);
                self.expr_type(expr)
            }
        }
    }

    fn walk_statement(&mut self, statement: &Statement, is_final: bool, context: &BodyContext)
        ensures
            final(self)@ == analysed(view::statement(*statement), is_final, context.view(), old(self)@),
        decreases statement, 0int,
    {
        match statement {
            Statement::Call(call) => {
                self.walk_call_reads(call);
                if !is_final {
                    let ty = call_return_type(call, context.functions);
                    self.warn_if_unhandled(ty, call.callee_key.as_str(), context);
                }
            }
            Statement::Eval(expr) => {
                self.walk_expr_reads(expr);
                if !is_final {
                    let ty = self.expr_type(expr);
                    self.warn_if_unhandled(ty, "expression", context);
                }
            }
            Statement::Let { var, value } => {
                let ty = self.walk_let(value, context);
                self.declare(var.as_str(), ty, true);
            }
            Statement::Assign { var, value } => {
                self.walk_expr_reads(value);
                self.mark_read(var.as_str());
            }
            Statement::Return(expr) => self.walk_expr_reads(expr),
            Statement::Match { target, arms } => {
                self.walk_expr_reads(target);
                self.walk_arms(arms, target, context);
            }
            Statement::If { cond, then_body, else_body } => {
                self.walk_expr_reads(cond);
                self.walk_scope(then_body, context);
                self.walk_scope(else_body, context);
            }
            Statement::While { cond, body } => {
                self.walk_expr_reads(cond);
                self.walk_scope(body, context);
            }
            Statement::For { var, source, body } => {
                self.walk_expr_reads(source);
                self.open_scope();
                self.declare(var.as_str(), None, false);
                self.walk_sequence(body, context);
                self.finish_scope();
            }
            Statement::Task { captures, body } => {
                self.mark_all(captures);
                self.walk_scope(body, context);
            }
            Statement::Spawn { captures, value, .. } => {
                self.mark_all(captures);
                self.walk_expr_reads(value);
            }
            Statement::Join { handle, .. } => self.mark_read(handle.as_str()),
            Statement::Break | Statement::Continue => {}
        }
    }

    fn walk_sequence(&mut self, statements: &Vec<Statement>, context: &BodyContext)
        ensures
            final(self)@ == analysed_sequence(view::statements(statements@), 0, context.view(), old(self)@),
        decreases statements, 0int,
    {
        let ghost all = view::statements(statements@);
        let ghost start = self@;
        let mut i: usize = 0;
        while i < statements.len()
            invariant
                i <= statements.len(),
                all == view::statements(statements@),
                all.len() == statements@.len(),
                start == old(self)@,
                analysed_sequence(all, 0, context.view(), start) == analysed_sequence(
                    all,
                    i as int,
                    context.view(),
                    self@,
                ),
            decreases statements.len() - i,
        {
            assert(all[i as int] == view::statement(statements@[i as int]));
            let is_final = i + 1 == statements.len();
            self.walk_statement(&statements[i], is_final, context);
            i += 1;
        }
    }

    fn walk_scope(&mut self, statements: &Vec<Statement>, context: &BodyContext)
        ensures
            final(self)@ == analysed_scope(view::statements(statements@), context.view(), old(self)@),
        decreases statements, 1int,
    {
        self.open_scope();
        self.walk_sequence(statements, context);
        self.finish_scope();
    }

    fn walk_arms(&mut self, arms: &Vec<MatchArm>, target: &Expr, context: &BodyContext)
        ensures
            final(self)@ == analysed_arms(
                view::match_arms(arms@),
                0,
                view::expr(*target),
                context.view(),
                old(self)@,
            ),
        decreases arms, 0int,
    {
        let ghost all = view::match_arms(arms@);
        let ghost wanted = view::expr(*target);
        let ghost start = self@;
        let mut i: usize = 0;
        while i < arms.len()
            invariant
                i <= arms.len(),
                all == view::match_arms(arms@),
                wanted == view::expr(*target),
                start == old(self)@,
                analysed_arms(all, 0, wanted, context.view(), start) == analysed_arms(
                    all,
                    i as int,
                    wanted,
                    context.view(),
                    self@,
                ),
            decreases arms.len() - i,
        {
            assert(all[i as int] == view::match_arm(arms@[i as int]));
            self.open_scope();
            let expected = self.expr_type(target);
            self.walk_pattern(&arms[i].pattern, &expected);
            self.walk_sequence(&arms[i].body, context);
            self.finish_scope();
            i += 1;
        }
    }
}

fn check_body(
    statements: &Vec<Statement>,
    parameters: &Vec<TypedName>,
    context: &BodyContext,
    warnings: Vec<String>,
) -> (result: Vec<String>)
    ensures
        view::texts(result@) == body_warnings(
            view::statements(statements@),
            view::typed_names(parameters@),
            context.view(),
            view::texts(warnings@),
        ),
{
    let mut scopes: Vec<Vec<(String, usize)>> = Vec::new();
    scopes.push(Vec::new());
    let mut analysis = BindingAnalysis { bindings: Vec::new(), scopes, warnings };
    let ghost start = analysis@;
    let ghost all = view::typed_names(parameters@);
    proof {
        assert(binding_views(analysis.bindings@) =~= Seq::<BindingView>::empty());
        assert(scope_view(analysis.scopes@[0]@) =~= Seq::<(Seq<char>, int)>::empty());
        assert(scope_views(analysis.scopes@) =~= seq![Seq::<(Seq<char>, int)>::empty()]);
    }
    let mut i: usize = 0;
    while i < parameters.len()
        invariant
            i <= parameters.len(),
            all == view::typed_names(parameters@),
            parameters_declared(all, 0, start) == parameters_declared(all, i as int, analysis@),
        decreases parameters.len() - i,
    {
        assert(all[i as int] == view::typed_name(parameters@[i as int]));
        let ty = copy::type_ref(&parameters[i].ty);
        analysis.declare(parameters[i].name.as_str(), Some(ty), false);
        i += 1;
    }
    analysis.walk_scope(statements, context);
    analysis.warnings
}

/// Reports results that a body drops and bindings that it never reads.
pub fn validate_unhandled_body(
    statements: &Vec<Statement>,
    parameters: &Vec<TypedName>,
    functions: &Vec<FunctionEntry>,
    aliases: &Vec<AliasEntry>,
    warnings: Vec<String>,
) -> (result: Vec<String>)
    ensures
        view::texts(result@) == body_warnings(
            view::statements(statements@),
            view::typed_names(parameters@),
            (ContextView {
                functions: view::function_entries(functions@),
                aliases: view::alias_entries(aliases@),
            }),
            view::texts(warnings@),
        ),
{
    let context = BodyContext { functions, aliases };
    check_body(statements, parameters, &context, warnings)
}

/// Reports results that bodies drop and bindings that they never read: first in
/// the program's own functions in key order, then in the entry body.
pub fn validate_unhandled_values(
    statements: &Vec<Statement>,
    functions: &Vec<FunctionEntry>,
    aliases: &Vec<AliasEntry>,
    warnings: Vec<String>,
) -> (result: Vec<String>)
    requires
        crate::lowered::tables::keys_ascending(functions@),
    ensures
        ({
            let context = ContextView {
                functions: view::function_entries(functions@),
                aliases: view::alias_entries(aliases@),
            };
            view::texts(result@) == body_warnings(
                view::statements(statements@),
                Seq::empty(),
                context,
                function_warnings(context, 0, view::texts(warnings@)),
            )
        }),
{
    let context = BodyContext { functions, aliases };
    let ghost lookup = context.view();
    let ghost start = view::texts(warnings@);
    let mut found = warnings;
    let mut i: usize = 0;
    while i < functions.len()
        invariant
            i <= functions.len(),
            context.functions == functions,
            lookup == context.view(),
            function_warnings(lookup, 0, start) == function_warnings(lookup, i as int, view::texts(found@)),
        decreases functions.len() - i,
    {
        assert(lookup.functions[i as int] == view::function_entry(functions@[i as int]));
        let signature = &functions[i].signature;
        match &signature.body {
            FunctionBody::User { statements } => {
                if signature.alias.as_str().is_empty() {
                    found = check_body(statements, &signature.parameters, &context, found);
                }
            }
            _ => {}
        }
        i += 1;
    }
    let none: Vec<TypedName> = Vec::new();
    assert(view::typed_names(none@) =~= Seq::<TypedNameView>::empty());
    check_body(statements, &none, &context, found)
}

// Laws.

/// A body whose handles check out leaves none of them live, and none can be
/// joined twice in a row.
pub proof fn law_handles_are_joined_once(
    handle: Seq<char>,
    live: Seq<Seq<char>>,
    first: StatementView,
    second: StatementView,
)
    requires
        first matches StatementView::Join { handle: joined, .. } && joined == handle,
        second matches StatementView::Join { handle: joined, .. } && joined == handle,
        live.no_duplicates(),
    ensures
        live_behind(first, live) matches Ok(after) ==> live_behind(second, after) is Err,
{
    lemma_place(live, 0, handle);
    if is_live(live, handle) {
        let place = crate::effect_semantics::node_from(live, 0, handle);
        let after = without_text(live, handle);
        lemma_place(after, 0, handle);
        let again = crate::effect_semantics::node_from(after, 0, handle);
        if again < after.len() {
            if again < place {
                assert(live[again] == handle);
            } else {
                assert(live[again + 1] == handle);
            }
        }
    }
}

proof fn lemma_place(names: Seq<Seq<char>>, from: int, name: Seq<char>)
    requires
        0 <= from <= names.len(),
    ensures
        from <= crate::effect_semantics::node_from(names, from, name) <= names.len(),
        crate::effect_semantics::node_from(names, from, name) < names.len()
            ==> names[crate::effect_semantics::node_from(names, from, name)] == name,
    decreases names.len() - from,
{
    if from < names.len() && names[from] != name {
        lemma_place(names, from + 1, name);
    }
}

} // verus!
