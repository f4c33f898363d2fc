use crate::error::{Error, ErrorView};
use crate::source::{SourceInfo, SourceInfoView};
use crate::value::{all_functions, function_name};
use crate::value::{Atom, Function, Value, ValueView};
use vstd::prelude::*;

verus! {

/// Mathematical model of one frame: its strong and its weak bindings, by
/// name, and whether `upeval` made it.
pub ghost struct FrameView {
    pub strong: Map<Seq<char>, ValueView>,
    pub weak: Map<Seq<char>, ValueView>,
    pub is_upeval: bool,
}

/// A frame without bindings.
pub open spec fn empty_frame(is_upeval: bool) -> FrameView {
    FrameView { strong: Map::empty(), weak: Map::empty(), is_upeval }
}

/// The map that a row of bindings stands for: a later one replaces an
/// earlier one of the same name.
pub open spec fn bindings(entries: Seq<(Atom, Value)>) -> Map<Seq<char>, ValueView>
    decreases entries.len(),
{
    if entries.len() == 0 {
        Map::empty()
    } else {
        bindings(entries.drop_last()).insert(entries.last().0@, entries.last().1@)
    }
}

/// What a name stands for in a chain of frames, the current one first: in
/// each frame the strong binding, then the weak one, then the frame's
/// parent. A name bound nowhere stands for itself.
pub open spec fn lookup_spec(frames: Seq<FrameView>, key: Seq<char>) -> ValueView
    decreases frames.len(),
{
    if frames.len() == 0 {
        ValueView::Atom(key)
    } else if frames[0].strong.contains_key(key) {
        frames[0].strong[key]
    } else if frames[0].weak.contains_key(key) {
        frames[0].weak[key]
    } else {
        lookup_spec(frames.drop_first(), key)
    }
}

/// A frame after a strong definition, which a strong binding of the same
/// name in that frame forbids.
pub open spec fn define_spec(
    frame: FrameView,
    key: Seq<char>,
    val: ValueView,
    source_info: SourceInfoView,
) -> Result<FrameView, ErrorView> {
    if frame.strong.contains_key(key) {
        Err(
            ErrorView::Redefinition {
                source_info,
                key,
                old_val: frame.strong[key],
                new_val: val,
            },
        )
    } else {
        Ok(FrameView { strong: frame.strong.insert(key, val), ..frame })
    }
}

/// A frame after a weak definition, which replaces a weak binding of the
/// same name.
pub open spec fn define_weak_spec(frame: FrameView, key: Seq<char>, val: ValueView) -> FrameView {
    FrameView { weak: frame.weak.insert(key, val), ..frame }
}

/// The index of the first frame from `from` on that `upeval` did not make.
pub open spec fn first_plain_frame(frames: Seq<FrameView>, from: int) -> Option<int>
    decreases frames.len() - from,
{
    if from < 0 || from >= frames.len() {
        None
    } else if frames[from].is_upeval {
        first_plain_frame(frames, from + 1)
    } else {
        Some(from)
    }
}

/// The index of the frame in which `upeval` evaluates: the parent of the
/// nearest frame, the current one included, that `upeval` did not make.
pub open spec fn upeval_target(frames: Seq<FrameView>) -> Option<int> {
    match first_plain_frame(frames, 0) {
        Some(i) if i + 1 < frames.len() => Some(i + 1),
        _ => None,
    }
}

/// What holds of the frames of every context: there is one at least, and
/// `upeval` did not make the last one, the root.
pub open spec fn valid_frames(frames: Seq<FrameView>) -> bool {
    frames.len() >= 1 && !frames.last().is_upeval
}

/// Primitive bindings added to `weak`, one per operator of `fs`.
pub open spec fn seed_functions(fs: Seq<Function>, weak: Map<Seq<char>, ValueView>) -> Map<
    Seq<char>,
    ValueView,
>
    decreases fs.len(),
{
    if fs.len() == 0 {
        weak
    } else {
        seed_functions(
            fs.drop_first(),
            weak.insert(function_name(fs[0]), ValueView::Function(fs[0])),
        )
    }
}

/// The frame every program starts in: each primitive under its name and the
/// atoms `SPACE`, `LPAR` and `RPAR`, all weak.
pub open spec fn root_frame() -> FrameView {
    FrameView {
        strong: Map::empty(),
        weak: seed_functions(all_functions(), Map::empty()).insert(
            "SPACE"@,
            ValueView::Atom(" "@),
        ).insert("LPAR"@, ValueView::Atom("("@)).insert("RPAR"@, ValueView::Atom(")"@)),
        is_upeval: false,
    }
}

/// One frame of the environment, with a handle to its parent.
#[derive(Debug)]
pub struct Context<'a> {
    parent: Option<&'a Context<'a>>,
    map: Vec<(Atom, Value)>,
    map_weak: Vec<(Atom, Value)>,
    is_upeval: bool,
}

/// The frames from `ctx` up to the root. Only a frame with a parent counts
/// as made by `upeval`.
pub closed spec fn frames_of(ctx: Context) -> Seq<FrameView>
    decreases ctx,
{
    seq![
        FrameView {
            strong: bindings(ctx.map@),
            weak: bindings(ctx.map_weak@),
            is_upeval: ctx.is_upeval && ctx.parent is Some,
        },
    ] + match ctx.parent {
        Some(p) => frames_of(*p),
        None => Seq::empty(),
    }
}

fn find<'b>(entries: &'b Vec<(Atom, Value)>, key: &Atom) -> (res: Option<&'b Value>)
    ensures
        match res {
            Some(v) => bindings(entries@).contains_key(key@) && bindings(entries@)[key@] == v@,
            None => !bindings(entries@).contains_key(key@),
        },
{
    let mut i = entries.len();
    assert(entries@.take(i as int) =~= entries@);
    while i > 0
        invariant
            i <= entries@.len(),
            bindings(entries@).contains_key(key@) == bindings(
                entries@.take(i as int),
            ).contains_key(key@),
            bindings(entries@).contains_key(key@) ==> bindings(entries@)[key@] == bindings(
                entries@.take(i as int),
            )[key@],
        decreases i,
    {
        i = i - 1;
        let ghost s = entries@.take(i + 1);
        assert(s.drop_last() =~= entries@.take(i as int));
        assert(s.last() == entries@[i as int]);
        if entries[i].0.name == key.name {
            return Some(&entries[i].1);
        }
    }
    None
}

impl<'a> Context<'a> {
    /// The frames from this one up to the root.
    pub open spec fn frames(&self) -> Seq<FrameView> {
        frames_of(*self)
    }

    /// A chain of frames is never empty, and `upeval` did not make the root.
    pub proof fn lemma_frames(&self)
        ensures
            valid_frames(self.frames()),
        decreases self,
    {
        match self.parent {
            Some(p) => {
                p.lemma_frames();
                assert(self.frames().last() == p.frames().last());
            },
            None => {},
        }
    }

    /// A frame without bindings or parent.
    pub fn new_root() -> (res: Context<'static>)
        ensures
            res.frames() == seq![empty_frame(false)],
    {
        let res = Context { parent: None, is_upeval: false, map: Vec::new(), map_weak: Vec::new() };
        assert(res.frames() =~= seq![empty_frame(false)]);
        res
    }

    /// A frame without bindings below `parent`.
    pub fn new(parent: &'a Context<'a>) -> (res: Self)
        ensures
            res.frames() == seq![empty_frame(false)] + parent.frames(),
    {
        let res = Context {
            parent: Some(parent),
            is_upeval: false,
            map: Vec::new(),
            map_weak: Vec::new(),
        };
        assert(res.frames() =~= seq![empty_frame(false)] + parent.frames());
        res
    }

    /// A frame without bindings below `parent`, marked as made by `upeval`.
    pub fn new_upeval(parent: &'a Context<'a>) -> (res: Self)
        ensures
            res.frames() == seq![empty_frame(true)] + parent.frames(),
    {
        let res = Context {
            parent: Some(parent),
            is_upeval: true,
            map: Vec::new(),
            map_weak: Vec::new(),
        };
        assert(res.frames() =~= seq![empty_frame(true)] + parent.frames());
        res
    }

    /// The parent frame, which the root lacks.
    pub fn parent(&self) -> (res: Option<&'a Context<'a>>)
        ensures
            match res {
                Some(p) => self.frames().len() > 1 && p.frames() == self.frames().drop_first(),
                None => self.frames().len() == 1,
            },
    {
        proof {
            if let Some(p) = self.parent {
                p.lemma_frames();
                assert(self.frames().drop_first() =~= p.frames());
            }
        }
        self.parent
    }

    /// Whether `upeval` made this frame.
    pub fn is_upeval(&self) -> (res: bool)
        ensures
            self.frames().len() >= 1,
            res == self.frames()[0].is_upeval,
    {
        self.is_upeval && self.parent.is_some()
    }
}

/// Binds `key` strongly in the current frame, unless it is so bound there
/// already.
pub fn define(key: &Atom, val: Value, ctx: &mut Context, source_info: &SourceInfo) -> (res: Result<
    (),
    Error,
>)
    ensures
        old(ctx).frames().len() >= 1,
        match define_spec(old(ctx).frames()[0], key@, val@, source_info@) {
            Ok(frame) => res is Ok && final(ctx).frames() == old(ctx).frames().update(0, frame),
            Err(e) => res matches Err(x) && x@ == e && final(ctx).frames() == old(ctx).frames(),
        },
{
    match find(&ctx.map, key) {
        Some(v) => Err(
            Error::Redefinition {
                source_info: source_info.clone(),
                key: key.clone(),
                old_val: v.clone(),
                new_val: val,
            },
        ),
        None => {
            let ghost before = ctx.map@;
            ctx.map.push((key.clone(), val));
            assert(ctx.map@.drop_last() =~= before);
            assert(final(ctx).frames() =~= old(ctx).frames().update(
                0,
                define_spec(old(ctx).frames()[0], key@, val@, source_info@)->Ok_0,
            ));
            Ok(())
        },
    }
}

/// Binds `key` weakly in the current frame, in place of an earlier weak
/// binding of that name.
pub fn define_weak(key: &Atom, val: Value, ctx: &mut Context)
    ensures
        old(ctx).frames().len() >= 1,
        final(ctx).frames() == old(ctx).frames().update(
            0,
            define_weak_spec(old(ctx).frames()[0], key@, val@),
        ),
{
    let ghost before = ctx.map_weak@;
    ctx.map_weak.push((key.clone(), val));
    assert(ctx.map_weak@.drop_last() =~= before);
    assert(final(ctx).frames() =~= old(ctx).frames().update(
        0,
        define_weak_spec(old(ctx).frames()[0], key@, val@),
    ));
}

/// What `key` stands for in `ctx`. Never fails: a name bound nowhere stands
/// for itself.
pub fn lookup(key: &Atom, ctx: &Context, source_info: &SourceInfo) -> (res: Result<Value, Error>)
    ensures
        res matches Ok(v) && v@ == lookup_spec(ctx.frames(), key@),
    decreases ctx,
{
    proof {
        if let Some(p) = ctx.parent {
            assert(ctx.frames().drop_first() =~= p.frames());
        } else {
            assert(ctx.frames().drop_first() =~= Seq::empty());
        }
        assert(ctx.frames()[0].strong == bindings(ctx.map@));
        assert(ctx.frames()[0].weak == bindings(ctx.map_weak@));
    }
    match find(&ctx.map, key) {
        Some(val) => Ok(val.clone()),
        None => match find(&ctx.map_weak, key) {
            Some(val) => Ok(val.clone()),
            None => match ctx.parent {
                Some(parent) => lookup(key, parent, source_info),
                None => {
                    assert(lookup_spec(Seq::empty(), key@) == ValueView::Atom(key@));
                    Ok(Value::Atom(key.clone()))
                },
            },
        },
    }
}

/// The frame every program starts in.
pub fn create_root_context() -> (res: Context<'static>)
    ensures
        res.frames() == seq![root_frame()],
{
    let mut ctx = Context::new_root();
    let funcs = Function::all();
    let mut i: usize = 0;
    assert(funcs@.skip(0) =~= funcs@);
    while i < funcs.len()
        invariant
            i <= funcs@.len(),
            funcs@ == all_functions(),
            ctx.frames().len() == 1,
            ctx.frames()[0].strong == Map::<Seq<char>, ValueView>::empty(),
            !ctx.frames()[0].is_upeval,
            seed_functions(funcs@.skip(i as int), ctx.frames()[0].weak) == seed_functions(
                all_functions(),
                Map::empty(),
            ),
        decreases funcs@.len() - i,
    {
        assert(funcs@.skip(i as int).drop_first() =~= funcs@.skip(i + 1));
        let func = funcs[i];
        define_weak(&Atom::new(func.name()), Value::Function(func), &mut ctx);
        i = i + 1;
    }
    define_weak(&Atom::new("SPACE"), Value::Atom(Atom::new(" ")), &mut ctx);
    define_weak(&Atom::new("LPAR"), Value::Atom(Atom::new("(")), &mut ctx);
    define_weak(&Atom::new("RPAR"), Value::Atom(Atom::new(")")), &mut ctx);
    assert(ctx.frames() =~= seq![root_frame()]);
    ctx
}

/// A name that no frame of the chain binds, strongly or weakly, stands for
/// itself: the atom of that name.
pub proof fn lemma_lookup_unbound(frames: Seq<FrameView>, key: Seq<char>)
    requires
        forall|i: int|
            0 <= i < frames.len() ==> !(#[trigger] frames[i]).strong.contains_key(key)
                && !frames[i].weak.contains_key(key),
    ensures
        lookup_spec(frames, key) == ValueView::Atom(key),
    decreases frames.len(),
{
    if frames.len() > 0 {
        let rest = frames.drop_first();
        assert forall|i: int| 0 <= i < rest.len() implies !(#[trigger] rest[i]).strong.contains_key(
            key,
        ) && !rest[i].weak.contains_key(key) by {
            assert(rest[i] == frames[i + 1]);
        }
        lemma_lookup_unbound(rest, key);
    }
}

/// A strong definition makes a second one of the same name fail in the same
/// frame, whatever the values; the error names both.
pub proof fn lemma_define_twice(
    frame: FrameView,
    key: Seq<char>,
    first: ValueView,
    second: ValueView,
    source_info: SourceInfoView,
    later: SourceInfoView,
)
    requires
        define_spec(frame, key, first, source_info) is Ok,
    ensures
        define_spec(define_spec(frame, key, first, source_info)->Ok_0, key, second, later) == Err::<
            FrameView,
            ErrorView,
        >(ErrorView::Redefinition { source_info: later, key, old_val: first, new_val: second }),
{
}

/// In a new frame every strong definition succeeds, whatever the frames
/// above bind, and a lookup from that frame then finds the new value.
pub proof fn lemma_define_shadows(
    frames: Seq<FrameView>,
    is_upeval: bool,
    key: Seq<char>,
    val: ValueView,
    source_info: SourceInfoView,
)
    ensures
        define_spec(empty_frame(is_upeval), key, val, source_info) matches Ok(frame) && lookup_spec(
            seq![frame] + frames,
            key,
        ) == val,
{
}

/// A weak definition never fails and does not stand in the way of a strong
/// one of the same name, which lookups then prefer.
pub proof fn lemma_weak_then_strong(
    frames: Seq<FrameView>,
    frame: FrameView,
    key: Seq<char>,
    weak: ValueView,
    strong: ValueView,
    source_info: SourceInfoView,
)
    requires
        !frame.strong.contains_key(key),
    ensures
        lookup_spec(seq![define_weak_spec(frame, key, weak)] + frames, key) == weak,
        define_spec(define_weak_spec(frame, key, weak), key, strong, source_info) matches Ok(f)
            && lookup_spec(seq![f] + frames, key) == strong,
{
}

/// `upeval` has no frame to evaluate in exactly where `upeval` made every
/// frame below the root: the nearest plain frame, from the current one up,
/// is then the root, which has no parent, or there is none.
pub proof fn lemma_upeval_target_none(frames: Seq<FrameView>)
    ensures
        upeval_target(frames) is None <==> (forall|i: int|
            0 <= i < frames.len() - 1 ==> (#[trigger] frames[i]).is_upeval),
{
    if forall|i: int| 0 <= i < frames.len() - 1 ==> (#[trigger] frames[i]).is_upeval {
        lemma_first_plain_last(frames, 0);
    } else {
        let i = choose|i: int| 0 <= i < frames.len() - 1 && !(#[trigger] frames[i]).is_upeval;
        lemma_first_plain_before(frames, 0, i);
    }
}

proof fn lemma_first_plain_last(frames: Seq<FrameView>, from: int)
    requires
        0 <= from,
        forall|i: int| from <= i < frames.len() - 1 ==> (#[trigger] frames[i]).is_upeval,
    ensures
        first_plain_frame(frames, from) matches Some(i) ==> i + 1 >= frames.len(),
    decreases frames.len() - from,
{
    if from < frames.len() && frames[from].is_upeval {
        lemma_first_plain_last(frames, from + 1);
    }
}

proof fn lemma_first_plain_before(frames: Seq<FrameView>, from: int, plain: int)
    requires
        0 <= from <= plain < frames.len(),
        !frames[plain].is_upeval,
    ensures
        first_plain_frame(frames, from) matches Some(i) && from <= i <= plain,
    decreases plain - from,
{
    if from < plain && frames[from].is_upeval {
        lemma_first_plain_before(frames, from + 1, plain);
    }
}

/// `upeval` skips the frames that `upeval` made: from below a row of such
/// frames it reaches the parent of the first plain frame above them.
pub proof fn lemma_upeval_target_skips(frames: Seq<FrameView>, shells: int)
    requires
        0 <= shells,
        shells + 1 < frames.len(),
        forall|i: int| 0 <= i < shells ==> (#[trigger] frames[i]).is_upeval,
        !frames[shells].is_upeval,
    ensures
        upeval_target(frames) == Some(shells + 1),
{
    lemma_first_plain(frames, 0, shells);
}

proof fn lemma_first_plain(frames: Seq<FrameView>, from: int, plain: int)
    requires
        0 <= from <= plain < frames.len(),
        forall|i: int| from <= i < plain ==> (#[trigger] frames[i]).is_upeval,
        !frames[plain].is_upeval,
    ensures
        first_plain_frame(frames, from) == Some(plain),
    decreases plain - from,
{
    if from < plain {
        lemma_first_plain(frames, from + 1, plain);
    }
}

} // verus!
