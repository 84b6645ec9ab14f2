//! What follows compiling the ActionScript 2 classes into the exported
//! file: each movieclip with a class registers it when its character is
//! initialized, and the placements of the last frame move after the class
//! definitions that the compiler added to it.
use vstd::prelude::*;
use std::collections::HashMap;
use crate::export::{Avm1Action, Avm1ActionView, Avm1Value, Avm1ValueView, CharacterId, ExportError, actions_view};
use crate::movie::{Symbol, SymbolIndex};

verus! {

/// `Object.registerClass(name, class)`, with the class looked up by its
/// name.
pub open spec fn register_class_script(name: Seq<char>, class_name: Seq<char>) -> Seq<Avm1ActionView> {
    seq![
        Avm1ActionView::ConstantPool(seq!["Object"@, "registerClass"@, name, class_name]),
        Avm1ActionView::Push(seq![Avm1ValueView::ConstantPool(3)]),
        Avm1ActionView::GetVariable,
        Avm1ActionView::Push(
            seq![
                Avm1ValueView::ConstantPool(2),
                Avm1ValueView::Int(2),
                Avm1ValueView::ConstantPool(0),
            ],
        ),
        Avm1ActionView::GetVariable,
        Avm1ActionView::Push(seq![Avm1ValueView::ConstantPool(1)]),
        Avm1ActionView::CallMethod,
        Avm1ActionView::Pop,
        // the player needs the end
        Avm1ActionView::End,
    ]
}

/// A value on the player's stack, as far as straight-line scripts without
/// registers need: a string, the value of a variable, an integer, or what
/// this reading does not follow.
pub enum StackValue {
    Str(Seq<char>),
    VariableValue(Seq<char>),
    Int(int),
    Unknown,
}

/// A method call that a script makes: the object, the method's name, and
/// the arguments, the first one first.
pub struct MethodCall {
    pub object: StackValue,
    pub method: Seq<char>,
    pub args: Seq<StackValue>,
}

/// The constant pool, the stack and the method calls made so far.
pub struct ScriptState {
    pub pool: Seq<Seq<char>>,
    pub stack: Seq<StackValue>,
    pub calls: Seq<MethodCall>,
}

/// The value that a `Push` puts on the stack.
pub open spec fn pushed_value(pool: Seq<Seq<char>>, v: Avm1ValueView) -> StackValue {
    match v {
        Avm1ValueView::ConstantPool(k) => if k < pool.len() {
            StackValue::Str(pool[k as int])
        } else {
            StackValue::Unknown
        },
        Avm1ValueView::Str(s) => StackValue::Str(s),
        Avm1ValueView::Int(i) => StackValue::Int(i as int),
        _ => StackValue::Unknown,
    }
}

pub open spec fn pushed_values(pool: Seq<Seq<char>>) -> spec_fn(Avm1ValueView) -> StackValue {
    |v: Avm1ValueView| pushed_value(pool, v)
}

/// What one action does, as the player runs it: `GetVariable` replaces
/// the name on top of the stack with that variable's value; `CallMethod`
/// takes the method's name, the object, the number of arguments and then
/// the arguments, the first one on top, and leaves the call's result.
pub open spec fn run_action(st: ScriptState, a: Avm1ActionView) -> ScriptState {
    let s = st.stack;
    let l = s.len() as int;
    match a {
        Avm1ActionView::ConstantPool(p) => ScriptState { pool: p, ..st },
        Avm1ActionView::Push(vs) => ScriptState {
            stack: s + vs.map_values(pushed_values(st.pool)),
            ..st
        },
        Avm1ActionView::GetVariable => if l >= 1 {
            ScriptState {
                stack: s.drop_last().push(
                    match s.last() {
                        StackValue::Str(name) => StackValue::VariableValue(name),
                        _ => StackValue::Unknown,
                    },
                ),
                ..st
            }
        } else {
            st
        },
        Avm1ActionView::CallMethod => if l >= 3 && s[l - 1] is Str && s[l - 3] is Int
            && 0 <= s[l - 3]->Int_0 <= l - 3 {
            let n = s[l - 3]->Int_0;
            ScriptState {
                stack: s.take(l - 3 - n).push(StackValue::Unknown),
                calls: st.calls.push(
                    MethodCall {
                        object: s[l - 2],
                        method: s[l - 1]->Str_0,
                        args: Seq::new(n as nat, |i: int| s[l - 4 - i]),
                    },
                ),
                ..st
            }
        } else {
            st
        },
        Avm1ActionView::Pop => if l >= 1 {
            ScriptState { stack: s.drop_last(), ..st }
        } else {
            st
        },
        _ => st,
    }
}

/// The state after the actions, the first one first.
pub open spec fn run_script(st: ScriptState, acts: Seq<Avm1ActionView>) -> ScriptState
    decreases acts.len(),
{
    if acts.len() == 0 {
        st
    } else {
        run_script(run_action(st, acts.first()), acts.drop_first())
    }
}

pub open spec fn fresh_state() -> ScriptState {
    ScriptState { pool: Seq::empty(), stack: Seq::empty(), calls: Seq::empty() }
}

/// Run from an empty stack, the registration script makes one call:
/// `registerClass` on the value of `Object`, with the symbol's name as its
/// first argument and the value of the variable named by the class name as
/// its second.
pub proof fn lemma_registration_calls_register_class(name: Seq<char>, class_name: Seq<char>)
    ensures
        run_script(fresh_state(), register_class_script(name, class_name)).calls == seq![
            MethodCall {
                object: StackValue::VariableValue("Object"@),
                method: "registerClass"@,
                args: seq![StackValue::Str(name), StackValue::VariableValue(class_name)],
            },
        ],
{
    let acts = register_class_script(name, class_name);
    let pool = seq!["Object"@, "registerClass"@, name, class_name];
    let s0 = fresh_state();
    let s1 = run_action(s0, acts[0]);
    assert(s1.pool == pool);
    let s2 = run_action(s1, acts[1]);
    assert(s2.stack =~= seq![StackValue::Str(class_name)]);
    let s3 = run_action(s2, acts[2]);
    assert(s3.stack =~= seq![StackValue::VariableValue(class_name)]);
    let s4 = run_action(s3, acts[3]);
    assert(s4.stack =~= seq![
        StackValue::VariableValue(class_name),
        StackValue::Str(name),
        StackValue::Int(2),
        StackValue::Str("Object"@),
    ]);
    let s5 = run_action(s4, acts[4]);
    assert(s5.stack =~= seq![
        StackValue::VariableValue(class_name),
        StackValue::Str(name),
        StackValue::Int(2),
        StackValue::VariableValue("Object"@),
    ]);
    let s6 = run_action(s5, acts[5]);
    assert(s6.stack =~= seq![
        StackValue::VariableValue(class_name),
        StackValue::Str(name),
        StackValue::Int(2),
        StackValue::VariableValue("Object"@),
        StackValue::Str("registerClass"@),
    ]);
    let s7 = run_action(s6, acts[6]);
    let expected = MethodCall {
        object: StackValue::VariableValue("Object"@),
        method: "registerClass"@,
        args: seq![StackValue::Str(name), StackValue::VariableValue(class_name)],
    };
    assert(s7.calls.len() == 1);
    assert(s7.calls[0].args =~= expected.args);
    assert(s7.calls =~= seq![expected]);
    let s8 = run_action(s7, acts[7]);
    let s9 = run_action(s8, acts[8]);
    assert(s9.calls == s7.calls);
    // the script, step by step
    assert(acts.drop_first().drop_first().drop_first().drop_first().drop_first().drop_first(
    ).drop_first().drop_first().drop_first() =~= Seq::<Avm1ActionView>::empty());
    reveal_with_fuel(run_script, 10);
    assert(run_script(s0, acts) == run_script(s1, acts.drop_first()));
    assert(acts.drop_first().first() == acts[1]);
    assert(acts.drop_first().drop_first().first() == acts[2]);
    assert(acts.drop_first().drop_first().drop_first().first() == acts[3]);
    assert(acts.drop_first().drop_first().drop_first().drop_first().first() == acts[4]);
    assert(acts.drop_first().drop_first().drop_first().drop_first().drop_first().first()
        == acts[5]);
    assert(acts.drop_first().drop_first().drop_first().drop_first().drop_first().drop_first(
    ).first() == acts[6]);
    assert(acts.drop_first().drop_first().drop_first().drop_first().drop_first().drop_first(
    ).drop_first().first() == acts[7]);
    assert(acts.drop_first().drop_first().drop_first().drop_first().drop_first().drop_first(
    ).drop_first().drop_first().first() == acts[8]);
}

pub fn register_class_actions(name: &String, class_name: &String) -> (r: Vec<Avm1Action>)
    ensures
        actions_view(r@) == register_class_script(name@, class_name@),
{
    let object = "Object".to_owned();
    let register_class = "registerClass".to_owned();
    let pool = vec![object, register_class, name.clone(), class_name.clone()];
    assert(pool@.map_values(|x: String| x@) =~= seq!["Object"@, "registerClass"@, name@, class_name@]);
    let v1 = vec![Avm1Value::ConstantPool(3)];
    assert(v1@.map_values(|x: Avm1Value| x@) =~= seq![Avm1ValueView::ConstantPool(3)]);
    let v2 = vec![Avm1Value::ConstantPool(2), Avm1Value::Int(2), Avm1Value::ConstantPool(0)];
    assert(v2@.map_values(|x: Avm1Value| x@) =~= seq![
        Avm1ValueView::ConstantPool(2),
        Avm1ValueView::Int(2),
        Avm1ValueView::ConstantPool(0),
    ]);
    let v3 = vec![Avm1Value::ConstantPool(1)];
    assert(v3@.map_values(|x: Avm1Value| x@) =~= seq![Avm1ValueView::ConstantPool(1)]);
    let r = vec![
        Avm1Action::ConstantPool(pool),
        Avm1Action::Push(v1),
        Avm1Action::GetVariable,
        Avm1Action::Push(v2),
        Avm1Action::GetVariable,
        Avm1Action::Push(v3),
        Avm1Action::CallMethod,
        Avm1Action::Pop,
        Avm1Action::End,
    ];
    assert(actions_view(r@) =~= register_class_script(name@, class_name@));
    r
}

/// The actions that run when a character is first initialized.
pub struct ClassRegistration {
    pub character_id: CharacterId,
    pub actions: Vec<Avm1Action>,
}

pub struct ClassRegistrationView {
    pub character_id: CharacterId,
    pub actions: Seq<Avm1ActionView>,
}

impl View for ClassRegistration {
    type V = ClassRegistrationView;

    open spec fn view(&self) -> ClassRegistrationView {
        ClassRegistrationView { character_id: self.character_id, actions: actions_view(self.actions@) }
    }
}

pub open spec fn registrations_view(r: Seq<ClassRegistration>) -> Seq<ClassRegistrationView> {
    r.map_values(|x: ClassRegistration| x@)
}

/// A movieclip with a class.
pub open spec fn has_class(s: Symbol) -> bool {
    s matches Symbol::MovieClip(m) && m.properties.class_name@.len() > 0
}

/// The registrations of the classes of the symbols before `k`, in order;
/// or the first of them whose movieclip has no character.
pub open spec fn registrations(
    symbols: Seq<Symbol>,
    ids: Map<SymbolIndex, CharacterId>,
    k: int,
) -> Result<Seq<ClassRegistrationView>, SymbolIndex>
    decreases k,
{
    if k <= 0 {
        Ok(Seq::empty())
    } else {
        match registrations(symbols, ids, k - 1) {
            Err(i) => Err(i),
            Ok(prev) => {
                let s = symbols[k - 1];
                if has_class(s) {
                    let si = (k - 1) as usize;
                    if ids.contains_key(si) {
                        let m = s->MovieClip_0;
                        Ok(
                            prev.push(
                                ClassRegistrationView {
                                    character_id: ids[si],
                                    actions: register_class_script(
                                        m.properties.name@,
                                        m.properties.class_name@,
                                    ),
                                },
                            ),
                        )
                    } else {
                        Err(si)
                    }
                } else {
                    Ok(prev)
                }
            },
        }
    }
}

/// The registrations of the classes of the library's movieclips, in order.
pub fn class_registrations(
    symbols: &Vec<Symbol>,
    character_ids: &HashMap<SymbolIndex, CharacterId>,
) -> (r: Result<Vec<ClassRegistration>, ExportError>)
    ensures
        registrations(symbols@, character_ids@, symbols@.len() as int) matches Ok(regs) ==> r
            matches Ok(v) && registrations_view(v@) == regs,
        registrations(symbols@, character_ids@, symbols@.len() as int) matches Err(i) ==> r
            matches Err(e) && e == ExportError::NoCharacterId(i),
{
    broadcast use vstd::std_specs::hash::group_hash_axioms;

    let mut result: Vec<ClassRegistration> = Vec::new();
    let mut symbol_index: usize = 0;
    assert(registrations_view(result@) =~= Seq::<ClassRegistrationView>::empty());
    while symbol_index < symbols.len()
        invariant
            symbol_index <= symbols.len(),
            registrations(symbols@, character_ids@, symbol_index as int) == Ok::<
                Seq<ClassRegistrationView>,
                SymbolIndex,
            >(registrations_view(result@)),
        decreases symbols.len() - symbol_index,
    {
        let ghost before = registrations_view(result@);
        match &symbols[symbol_index] {
            Symbol::MovieClip(movieclip) => {
                if !movieclip.properties.class_name.as_str().is_empty() {
                    let character_id = match character_ids.get(&symbol_index) {
                        Some(id) => *id,
                        None => {
                            proof {
                                lemma_registrations_stay_failed(
                                    symbols@,
                                    character_ids@,
                                    symbol_index as int + 1,
                                    symbols@.len() as int,
                                );
                            }
                            return Err(ExportError::NoCharacterId(symbol_index));
                        },
                    };
                    let actions = register_class_actions(
                        &movieclip.properties.name,
                        &movieclip.properties.class_name,
                    );
                    result.push(ClassRegistration { character_id, actions });
                    assert(registrations_view(result@) =~= before.push(result@.last()@));
                }
            },
            _ => {},
        }
        symbol_index = symbol_index + 1;
    }
    Ok(result)
}

proof fn lemma_registrations_stay_failed(
    symbols: Seq<Symbol>,
    ids: Map<SymbolIndex, CharacterId>,
    k: int,
    n: int,
)
    requires
        0 <= k <= n,
        registrations(symbols, ids, k) is Err,
    ensures
        registrations(symbols, ids, n) == registrations(symbols, ids, k),
    decreases n - k,
{
    if k < n {
        lemma_registrations_stay_failed(symbols, ids, k + 1, n);
    }
}

/// What the reordering reads of a tag of the compiled file.
#[derive(Clone, Copy, PartialEq, Eq, Structural)]
pub enum TagKind {
    PlaceObject,
    ShowFrame,
    Other,
}

/// How many frames end before the tag at `i`.
pub open spec fn shows_before(kinds: Seq<TagKind>, i: int) -> int
    decreases i,
{
    if i <= 0 {
        0
    } else {
        shows_before(kinds, i - 1) + if kinds[i - 1] is ShowFrame {
            1int
        } else {
            0int
        }
    }
}

/// A placement in the last of `num_frames` frames.
pub open spec fn is_moved(kinds: Seq<TagKind>, num_frames: int, i: int) -> bool {
    shows_before(kinds, i) >= num_frames - 1 && kinds[i] is PlaceObject
}

/// The positions before `k` that stay, in order.
pub open spec fn staying(kinds: Seq<TagKind>, num_frames: int, k: int) -> Seq<usize>
    decreases k,
{
    if k <= 0 {
        Seq::empty()
    } else if is_moved(kinds, num_frames, k - 1) {
        staying(kinds, num_frames, k - 1)
    } else {
        staying(kinds, num_frames, k - 1).push((k - 1) as usize)
    }
}

/// The positions before `k` that move, in order.
pub open spec fn moving(kinds: Seq<TagKind>, num_frames: int, k: int) -> Seq<usize>
    decreases k,
{
    if k <= 0 {
        Seq::empty()
    } else if is_moved(kinds, num_frames, k - 1) {
        moving(kinds, num_frames, k - 1).push((k - 1) as usize)
    } else {
        moving(kinds, num_frames, k - 1)
    }
}

/// The new order of the tags, by their old positions: the placements of the
/// last frame go, last one first, right before the final tag; the rest
/// keeps its order.
pub open spec fn last_frame_order(kinds: Seq<TagKind>, num_frames: int) -> Seq<usize> {
    if kinds.len() == 0 {
        Seq::empty()
    } else {
        let n = kinds.len() - 1;
        staying(kinds, num_frames, n) + moving(kinds, num_frames, n).reverse() + seq![n as usize]
    }
}

/// The positions below `m` that stay, when the moved positions are those
/// of `t` from index `q` on.
pub open spec fn kept_below(m: int, t: Seq<usize>, q: int) -> Seq<usize>
    decreases m,
{
    if m <= 0 {
        Seq::empty()
    } else {
        kept_below(m - 1, t, q) + if t.subrange(q, t.len() as int).contains((m - 1) as usize) {
            Seq::<usize>::empty()
        } else {
            seq![(m - 1) as usize]
        }
    }
}

/// The order of the tags once the moved positions of `t` from index `q` on
/// are moved, last one first, before the final tag.
pub open spec fn arrangement(len: int, t: Seq<usize>, q: int) -> Seq<usize> {
    kept_below(len - 1, t, q) + t.subrange(q, t.len() as int).reverse() + seq![(len - 1) as usize]
}

proof fn lemma_moving_sorted(kinds: Seq<TagKind>, num_frames: int, k: int)
    requires
        0 <= k <= kinds.len(),
        kinds.len() <= usize::MAX,
    ensures
        forall|i: int, j: int|
            0 <= i < j < moving(kinds, num_frames, k).len() ==> moving(kinds, num_frames, k)[i]
                < moving(kinds, num_frames, k)[j],
        forall|i: int|
            0 <= i < moving(kinds, num_frames, k).len() ==> moving(kinds, num_frames, k)[i] < k,
        forall|x: usize|
            moving(kinds, num_frames, k).contains(x) <==> x < k && is_moved(
                kinds,
                num_frames,
                x as int,
            ),
    decreases k,
{
    if k > 0 {
        lemma_moving_sorted(kinds, num_frames, k - 1);
        let prev = moving(kinds, num_frames, k - 1);
        if is_moved(kinds, num_frames, k - 1) {
            let cur = prev.push((k - 1) as usize);
            assert(moving(kinds, num_frames, k) == cur);
            assert forall|x: usize| cur.contains(x) <==> x < k && is_moved(kinds, num_frames, x as int) by {
                if cur.contains(x) {
                    let w = choose|w: int| 0 <= w < cur.len() && cur[w] == x;
                    if w < prev.len() {
                        assert(prev[w] == x);
                        assert(prev.contains(x));
                    }
                }
                if x < k && is_moved(kinds, num_frames, x as int) {
                    if x == k - 1 {
                        assert(cur[prev.len() as int] == x);
                    } else {
                        assert(prev.contains(x));
                        let w = choose|w: int| 0 <= w < prev.len() && prev[w] == x;
                        assert(cur[w] == x);
                    }
                }
            }
        }
    }
}

proof fn lemma_kept_identity(m: int, t: Seq<usize>, q: int)
    requires
        0 <= m,
        forall|i: int| q <= i < t.len() ==> t[i] >= m,
        0 <= q <= t.len(),
    ensures
        kept_below(m, t, q) == Seq::new(m as nat, |i: int| i as usize),
    decreases m,
{
    if m > 0 {
        lemma_kept_identity(m - 1, t, q);
        let s0 = t.subrange(q, t.len() as int);
        assert(!s0.contains((m - 1) as usize)) by {
            if s0.contains((m - 1) as usize) {
                let w = choose|w: int| 0 <= w < s0.len() && s0[w] == (m - 1) as usize;
                assert(t[q + w] >= m);
            }
        }
        assert(Seq::new((m - 1) as nat, |i: int| i as usize).push((m - 1) as usize) =~= Seq::new(
            m as nat,
            |i: int| i as usize,
        ));
    }
}

/// Moving one more position: the next moved position `l` is in its place,
/// and taking it out and putting it before the final tag gives the next
/// arrangement.
proof fn lemma_kept_step(m: int, t: Seq<usize>, q: int, l: int)
    requires
        1 <= q <= t.len(),
        l == t[q - 1],
        l + 1 <= m <= usize::MAX,
        forall|i: int, j: int| 0 <= i < j < t.len() ==> t[i] < t[j],
    ensures
        kept_below(m, t, q).len() > l,
        kept_below(m, t, q)[l] == l,
        kept_below(m, t, q - 1) == kept_below(m, t, q).remove(l),
    decreases m,
{
    if m == l + 1 {
        assert forall|i: int| q <= i < t.len() implies t[i] >= l + 1 by {
            assert(t[q - 1] < t[i]);
        }
        lemma_kept_identity(l + 1, t, q);
        assert forall|i: int| q - 1 <= i < t.len() implies t[i] >= l by {
            if i > q - 1 {
                assert(t[q - 1] < t[i]);
            }
        }
        lemma_kept_identity(l, t, q - 1);
        assert(t.subrange(q - 1, t.len() as int)[0] == l as usize);
        assert(t.subrange(q - 1, t.len() as int).contains(l as usize));
        assert(kept_below(l + 1, t, q - 1) == kept_below(l, t, q - 1));
        assert(Seq::new((l + 1) as nat, |i: int| i as usize).remove(l) =~= Seq::new(
            l as nat,
            |i: int| i as usize,
        ));
    } else {
        lemma_kept_step(m - 1, t, q, l);
        let x = (m - 1) as usize;
        let s1 = t.subrange(q - 1, t.len() as int);
        let s0 = t.subrange(q, t.len() as int);
        assert(s1.contains(x) == s0.contains(x)) by {
            if s1.contains(x) {
                let w = choose|w: int| 0 <= w < s1.len() && s1[w] == x;
                assert(s1[0] == t[q - 1]);
                assert(w > 0);
                assert(s0[w - 1] == x);
            }
            if s0.contains(x) {
                let w = choose|w: int| 0 <= w < s0.len() && s0[w] == x;
                assert(s1[w + 1] == x);
            }
        }
        let prev = kept_below(m - 1, t, q);
        if t.subrange(q, t.len() as int).contains(x) {
            assert(kept_below(m, t, q) == prev + Seq::<usize>::empty());
            assert(prev + Seq::<usize>::empty() =~= prev);
            assert(kept_below(m, t, q - 1) == kept_below(m - 1, t, q - 1) + Seq::<usize>::empty());
            assert(kept_below(m - 1, t, q - 1) + Seq::<usize>::empty() =~= kept_below(m - 1, t, q - 1));
        } else {
            assert(kept_below(m, t, q) == prev + seq![x]);
            assert(kept_below(m, t, q - 1) == kept_below(m - 1, t, q - 1) + seq![x]);
            assert(prev.remove(l) + seq![x] =~= (prev + seq![x]).remove(l));
        }
    }
}

/// With nothing moved yet, the positions that stay are those not moved.
proof fn lemma_kept_all_below(kinds: Seq<TagKind>, num_frames: int, m: int, t: Seq<usize>)
    requires
        0 <= m <= kinds.len(),
        kinds.len() <= usize::MAX,
        forall|x: usize| t.contains(x) && x < m ==> is_moved(kinds, num_frames, x as int),
        forall|x: usize| x < m && is_moved(kinds, num_frames, x as int) ==> t.contains(x),
    ensures
        kept_below(m, t, 0) == staying(kinds, num_frames, m),
    decreases m,
{
    if m > 0 {
        lemma_kept_all_below(kinds, num_frames, m - 1, t);
        assert(t.subrange(0, t.len() as int) =~= t);
        assert(t.contains((m - 1) as usize) == is_moved(kinds, num_frames, m - 1));
    }
}

/// Moving the next position of `t` before the final tag gives the next
/// arrangement.
proof fn lemma_arrangement_move(len: int, t: Seq<usize>, q: int, v0: Seq<usize>, l: usize)
    requires
        2 <= len <= usize::MAX,
        1 <= q <= t.len(),
        l == t[q - 1],
        l + 1 < len,
        forall|a: int, b: int| 0 <= a < b < t.len() ==> t[a] < t[b],
        v0 == arrangement(len, t, q),
        v0.len() == len,
    ensures
        v0[l as int] == l,
        v0.remove(l as int).insert(len - 2, l) == arrangement(len, t, q - 1),
{
    lemma_kept_step(len - 1, t, q, l as int);
    let kq = kept_below(len - 1, t, q);
    let rest = t.subrange(q, t.len() as int).reverse();
    assert(v0 == kq + rest + seq![(len - 1) as usize]);
    assert(v0[l as int] == kq[l as int]);
    assert(v0.remove(l as int) =~= kq.remove(l as int) + rest + seq![(len - 1) as usize]);
    assert(t.subrange(q - 1, t.len() as int).reverse() =~= rest.push(l));
    assert(v0.remove(l as int).len() == len - 1);
    assert(v0.remove(l as int).insert(len - 2, l) =~= kq.remove(l as int) + rest.push(l) + seq![
        (len - 1) as usize,
    ]);
}

/// Places the placements of the last frame after the class definitions
/// that the compiler put into it, keeping the final tag last: each, from
/// the last to the first, is swapped forward until it stands right before
/// the final tag. The result lists the old positions of the tags in their
/// new order.
pub fn place_objects_last(kinds: &Vec<TagKind>, num_frames: u16) -> (r: Vec<usize>)
    requires
        num_frames >= 1,
        kinds.len() < 2 ==> moving(kinds@, num_frames as int, kinds.len() as int).len() == 0,
    ensures
        r@ == last_frame_order(kinds@, num_frames as int),
{
    let len = kinds.len();
    let ghost nf = num_frames as int;
    // the placements of the last frame
    let mut tags_to_place_at_end: Vec<usize> = Vec::new();
    let mut frame: u16 = 0;
    let mut index: usize = 0;
    while index < len
        invariant
            len == kinds.len(),
            num_frames >= 1,
            index <= len,
            frame as int == if shows_before(kinds@, index as int) < num_frames - 1 {
                shows_before(kinds@, index as int)
            } else {
                num_frames - 1
            },
            tags_to_place_at_end@ == moving(kinds@, num_frames as int, index as int),
        decreases len - index,
    {
        // the frames before the last one are left alone (the preloader)
        if frame < num_frames - 1 {
            if kinds[index] == TagKind::ShowFrame {
                frame = frame + 1;
            }
        } else if kinds[index] == TagKind::PlaceObject {
            tags_to_place_at_end.push(index);
        }
        index = index + 1;
    }
    // the tags by their old positions
    let mut order: Vec<usize> = Vec::new();
    let mut i: usize = 0;
    while i < len
        invariant
            i <= len,
            order@ == Seq::new(i as nat, |k: int| k as usize),
        decreases len - i,
    {
        order.push(i);
        i = i + 1;
        assert(order@ =~= Seq::new(i as nat, |k: int| k as usize));
    }
    if len < 2 {
        proof {
            if len == 1 {
                assert(last_frame_order(kinds@, nf) =~= seq![0usize]);
            }
        }
        assert(order@ =~= last_frame_order(kinds@, nf));
        return order;
    }
    let ghost t = moving(kinds@, nf, len - 1);
    proof {
        lemma_moving_sorted(kinds@, nf, len - 1);
        lemma_moving_sorted(kinds@, nf, len as int);
        assert(t.subrange(t.len() as int, t.len() as int).reverse() =~= Seq::<usize>::empty());
        lemma_kept_identity(len - 1, t, t.len() as int);
        assert(order@ =~= arrangement(len as int, t, t.len() as int));
    }
    let mut j = tags_to_place_at_end.len();
    while j > 0
        invariant
            len == kinds.len(),
            len >= 2,
            order@.len() == len,
            tags_to_place_at_end@ == moving(kinds@, nf, len as int),
            t == moving(kinds@, nf, len - 1),
            j <= tags_to_place_at_end.len(),
            j <= t.len() + 1,
            tags_to_place_at_end@.len() == t.len() || tags_to_place_at_end@ == t.push((len - 1) as usize),
            tags_to_place_at_end@.len() == t.len() ==> tags_to_place_at_end@ == t,
            forall|a: int, b: int| 0 <= a < b < t.len() ==> t[a] < t[b],
            forall|a: int| 0 <= a < t.len() ==> t[a] < len - 1,
            order@ == arrangement(len as int, t, if j <= t.len() { j as int } else { t.len() as int }),
        decreases j,
    {
        j = j - 1;
        let l = tags_to_place_at_end[j];
        if l + 1 < len {
            // l is one of t: it moves to the place before the final tag
            proof {
                if tags_to_place_at_end@.len() != t.len() {
                    assert(j < t.len());
                }
                assert(tags_to_place_at_end@[j as int] == t[j as int]);
            }
            let ghost q = j as int + 1;
            let ghost v0 = order@;
            proof {
                lemma_arrangement_move(len as int, t, q, v0, l);
            }
            let mut p = l;
            while p + 2 < len
                invariant
                    len >= 2,
                    l <= p <= len - 2,
                    v0.len() == len,
                    order@ == v0.subrange(0, l as int) + v0.subrange(l + 1, p + 1) + seq![
                        v0[l as int],
                    ] + v0.subrange(p + 1, len as int),
                decreases len - p,
            {
                let a = order[p];
                let b = order[p + 1];
                order.set(p, b);
                order.set(p + 1, a);
                p = p + 1;
                assert(order@ =~= v0.subrange(0, l as int) + v0.subrange(l + 1, p + 1) + seq![
                    v0[l as int],
                ] + v0.subrange(p + 1, len as int));
            }
            assert(order@ =~= v0.remove(l as int).insert(len - 2, v0[l as int]));
        } else {
            // the final tag itself stays where it is
            proof {
                assert(tags_to_place_at_end@.len() != t.len());
                assert(j == t.len());
            }
        }
    }
    proof {
        lemma_moving_sorted(kinds@, nf, len - 1);
        lemma_kept_all_below(kinds@, nf, len - 1, t);
        assert(t.subrange(0, t.len() as int) =~= t);
    }
    assert(order@ =~= last_frame_order(kinds@, nf));
    order
}

/// What the compiled file holds, as far as reordering its tags needs: its
/// version, its frame count and the kind of each of its tags.
pub struct CompiledSwf {
    pub version: u8,
    pub num_frames: u16,
    pub kinds: Vec<TagKind>,
}

pub struct CompiledSwfView {
    pub version: u8,
    pub num_frames: u16,
    pub kinds: Seq<TagKind>,
}

impl View for CompiledSwf {
    type V = CompiledSwfView;

    open spec fn view(&self) -> CompiledSwfView {
        CompiledSwfView { version: self.version, num_frames: self.num_frames, kinds: self.kinds@ }
    }
}

/// What the `swf` crate reads from the bytes of a file: its version, frame
/// count and tag kinds, or the message of its error.
pub uninterp spec fn swf_parsed(data: Seq<u8>) -> Result<CompiledSwfView, Seq<char>>;

pub open spec fn parsed_view(r: Result<CompiledSwf, String>) -> Result<CompiledSwfView, Seq<char>> {
    match r {
        Ok(c) => Ok(c@),
        Err(m) => Err(m@),
    }
}

/// Reads a file with `swf::decompress_swf` and `swf::parse_swf` and takes
/// its version, its frame count and the kind of each tag. Claimed: the
/// result is `swf_parsed` of the bytes. The parser reports malformed data
/// as an error; its `unwrap`s are on reads that cannot fail.
#[verifier::external_body]
fn parse_compiled_swf(data: &Vec<u8>) -> (r: Result<CompiledSwf, String>)
    ensures
        parsed_view(r) == swf_parsed(data@),
{
    let swf_buf = swf::decompress_swf(data.as_slice()).map_err(|e| e.to_string())?;
    let swf = swf::parse_swf(&swf_buf).map_err(|e| e.to_string())?;
    let kinds = swf.tags.iter().map(|tag| match tag {
        swf::Tag::PlaceObject(_) => TagKind::PlaceObject,
        swf::Tag::ShowFrame => TagKind::ShowFrame,
        _ => TagKind::Other,
    }).collect();
    Ok(CompiledSwf { version: swf.header.version(), num_frames: swf.header.num_frames(), kinds })
}

/// Why the compiled file cannot be finished.
pub enum CompileError {
    /// the compiled file could not be read: the message
    Parse(String),
    /// there are classes to register but the file has no tags
    NoTags,
    NoFrames,
    /// more tags than positions
    TooManyTags,
}

/// The tag kinds once `n` class registrations go in, one after the other,
/// right before the final tag.
pub open spec fn with_registrations(kinds: Seq<TagKind>, n: nat) -> Seq<TagKind> {
    if n == 0 {
        kinds
    } else {
        kinds.drop_last() + Seq::new(n, |i: int| TagKind::Other) + seq![kinds.last()]
    }
}

/// The order of the tags: the placements of the last frame after the class
/// definitions, where there are two tags or more.
pub open spec fn tag_order(kinds: Seq<TagKind>, num_frames: int) -> Seq<usize> {
    if kinds.len() >= 2 {
        last_frame_order(kinds, num_frames)
    } else {
        Seq::new(kinds.len(), |i: int| i as usize)
    }
}

/// Where the class registrations go and in which order the tags are then
/// written: the registrations go one after the other before the final tag,
/// and the placements of the last frame move after them. A file without
/// tags cannot take registrations, and a file without frames fails.
pub fn plan_tags(compiled: &CompiledSwf, registrations: usize) -> (r: Result<
    Vec<usize>,
    CompileError,
>)
    ensures
        registrations > 0 && compiled.kinds.len() == 0 ==> r == Err::<Vec<usize>, CompileError>(
            CompileError::NoTags,
        ),
        !(registrations > 0 && compiled.kinds.len() == 0) && compiled.num_frames == 0 ==> r
            == Err::<Vec<usize>, CompileError>(CompileError::NoFrames),
        !(registrations > 0 && compiled.kinds.len() == 0) && compiled.num_frames > 0
            && compiled.kinds.len() + registrations > usize::MAX ==> r == Err::<
            Vec<usize>,
            CompileError,
        >(CompileError::TooManyTags),
        !(registrations > 0 && compiled.kinds.len() == 0) && compiled.num_frames > 0
            && compiled.kinds.len() + registrations <= usize::MAX ==> (r matches Ok(order)
            && order@ == tag_order(
            with_registrations(compiled.kinds@, registrations as nat),
            compiled.num_frames as int,
        )),
{
    let len = compiled.kinds.len();
    if registrations > 0 && len == 0 {
        return Err(CompileError::NoTags);
    }
    if compiled.num_frames == 0 {
        return Err(CompileError::NoFrames);
    }
    if registrations > usize::MAX - len {
        return Err(CompileError::TooManyTags);
    }
    let mut kinds: Vec<TagKind> = Vec::new();
    let ghost target = with_registrations(compiled.kinds@, registrations as nat);
    let body = if registrations == 0 {
        len
    } else {
        len - 1
    };
    let mut i: usize = 0;
    while i < body
        invariant
            body <= len == compiled.kinds.len(),
            i <= body,
            kinds@ == compiled.kinds@.take(i as int),
        decreases body - i,
    {
        kinds.push(compiled.kinds[i]);
        i = i + 1;
        assert(kinds@ =~= compiled.kinds@.take(i as int));
    }
    if registrations > 0 {
        let mut k: usize = 0;
        while k < registrations
            invariant
                k <= registrations,
                len >= 1,
                body == len - 1,
                len + registrations <= usize::MAX,
                len == compiled.kinds.len(),
                kinds@ == compiled.kinds@.take(body as int) + Seq::new(
                    k as nat,
                    |j: int| TagKind::Other,
                ),
            decreases registrations - k,
        {
            kinds.push(TagKind::Other);
            k = k + 1;
            assert(kinds@ =~= compiled.kinds@.take(body as int) + Seq::new(
                k as nat,
                |j: int| TagKind::Other,
            ));
        }
        kinds.push(compiled.kinds[len - 1]);
        assert(compiled.kinds@.take(body as int) =~= compiled.kinds@.drop_last());
    } else {
        assert(compiled.kinds@.take(body as int) =~= compiled.kinds@);
    }
    assert(kinds@ =~= target);
    if kinds.len() >= 2 {
        Ok(place_objects_last(&kinds, compiled.num_frames))
    } else {
        let mut order: Vec<usize> = Vec::new();
        let mut j: usize = 0;
        while j < kinds.len()
            invariant
                j <= kinds.len(),
                order@ == Seq::new(j as nat, |x: int| x as usize),
            decreases kinds.len() - j,
        {
            order.push(j);
            j = j + 1;
            assert(order@ =~= Seq::new(j as nat, |x: int| x as usize));
        }
        Ok(order)
    }
}

/// Reads the compiled file and plans its tags for `registrations` class
/// registrations (see `plan_tags`); gives the file's version with the order.
pub fn plan_compiled_swf(data: &Vec<u8>, registrations: usize) -> (r: Result<
    (u8, Vec<usize>),
    CompileError,
>)
    ensures
        swf_parsed(data@) matches Err(m) ==> (r matches Err(CompileError::Parse(x)) && x@ == m),
        swf_parsed(data@) matches Ok(c) ==> {
            &&& r matches Ok(p) ==> p.0 == c.version
            &&& registrations > 0 && c.kinds.len() == 0 ==> r == Err::<(u8, Vec<usize>), CompileError>(
                CompileError::NoTags,
            )
            &&& !(registrations > 0 && c.kinds.len() == 0) && c.num_frames == 0 ==> r == Err::<
                (u8, Vec<usize>),
                CompileError,
            >(CompileError::NoFrames)
            &&& !(registrations > 0 && c.kinds.len() == 0) && c.num_frames > 0 && c.kinds.len()
                + registrations > usize::MAX ==> r == Err::<(u8, Vec<usize>), CompileError>(
                CompileError::TooManyTags,
            )
            &&& !(registrations > 0 && c.kinds.len() == 0) && c.num_frames > 0 && c.kinds.len()
                + registrations <= usize::MAX ==> (r matches Ok(p) && p.1@ == tag_order(
                with_registrations(c.kinds, registrations as nat),
                c.num_frames as int,
            ))
        },
{
    let compiled = match parse_compiled_swf(data) {
        Ok(c) => c,
        Err(m) => return Err(CompileError::Parse(m)),
    };
    match plan_tags(&compiled, registrations) {
        Ok(order) => Ok((compiled.version, order)),
        Err(e) => Err(e),
    }
}

} // verus!
