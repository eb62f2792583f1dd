//! Update of solids.

use crate::objects::{Shell, Solid};
use crate::storage::Handle;
use vstd::prelude::*;

verus! {

/// The index of the first of `handles` that refers to the same slot as
/// `handle`, and the number of handles where none does
pub open spec fn position(handles: Seq<Handle<Shell>>, handle: Handle<Shell>) -> int
    decreases handles.len(),
{
    if handles.len() == 0 {
        0
    } else if handles[0]@ == handle@ {
        0
    } else {
        1 + position(handles.drop_first(), handle)
    }
}

/// `handles` with `replacements` in the place of the handle at `index`
pub open spec fn spliced(
    handles: Seq<Handle<Shell>>,
    index: int,
    replacements: Seq<Handle<Shell>>,
) -> Seq<Handle<Shell>> {
    handles.subrange(0, index) + replacements + handles.subrange(index + 1, handles.len() as int)
}

/// Update a [`Solid`]
pub trait UpdateSolid: Sized {
    /// The shells of the solid
    spec fn shells(&self) -> Seq<Handle<Shell>>;

    /// Add shells to the solid: the result has the shells of the solid and,
    /// behind them, the given ones
    #[must_use]
    fn add_shells(&self, shells: Vec<Handle<Shell>>) -> (r: Self)
        ensures
            r.shells() == self.shells() + shells@,
    ;

    /// Update a shell of the solid, which must be one of its shells: the
    /// result has what `update` returns in the place of the first shell with
    /// the id of `handle`
    #[must_use]
    fn update_shell<F: FnOnce(&Handle<Shell>) -> Handle<Shell>>(
        &self,
        handle: &Handle<Shell>,
        update: F,
    ) -> (r: Self)
        requires
            position(self.shells(), *handle) < self.shells().len(),
            update.requires((handle,)),
        ensures
            exists|new: Handle<Shell>|
                update.ensures((handle,), new) && r.shells() == spliced(
                    self.shells(),
                    position(self.shells(), *handle),
                    seq![new],
                ),
    ;

    /// Replace a shell of the solid, which must be one of its shells
    ///
    /// This is a more general version of [`UpdateSolid::update_shell`] which
    /// can replace a single shell with multiple others: the result has what
    /// `replace` returns in the place of the first shell with the id of
    /// `handle`.
    #[must_use]
    fn replace_shell<const N: usize, F: FnOnce(&Handle<Shell>) -> [Handle<Shell>; N]>(
        &self,
        handle: &Handle<Shell>,
        replace: F,
    ) -> (r: Self)
        requires
            position(self.shells(), *handle) < self.shells().len(),
            replace.requires((handle,)),
        ensures
            exists|new: [Handle<Shell>; N]|
                replace.ensures((handle,), new) && r.shells() == spliced(
                    self.shells(),
                    position(self.shells(), *handle),
                    new@,
                ),
    ;
}

proof fn lemma_position_bounds(handles: Seq<Handle<Shell>>, handle: Handle<Shell>)
    ensures
        0 <= position(handles, handle) <= handles.len(),
    decreases handles.len(),
{
    if handles.len() > 0 && handles[0]@ != handle@ {
        lemma_position_bounds(handles.drop_first(), handle);
    }
}

/// The index of the first of `handles` that refers to the same slot as
/// `handle`
fn find(handles: &Vec<Handle<Shell>>, handle: &Handle<Shell>) -> (index: usize)
    requires
        position(handles@, *handle) < handles@.len(),
    ensures
        index == position(handles@, *handle),
{
    let mut i: usize = 0;
    assert(handles@.subrange(0, handles@.len() as int) == handles@);
    while !(handles[i].id() == handle.id())
        invariant
            i < handles.len(),
            position(handles@, *handle) == i + position(
                handles@.subrange(i as int, handles@.len() as int),
                *handle,
            ),
            position(handles@, *handle) < handles@.len(),
        decreases handles@.len() - i,
    {
        let ghost ahead = handles@.subrange(i as int, handles@.len() as int);
        assert(ahead[0] == handles@[i as int]);
        assert(ahead.drop_first() == handles@.subrange(i + 1, handles@.len() as int));
        proof {
            lemma_position_bounds(ahead.drop_first(), *handle);
        }
        i += 1;
    }
    let ghost ahead = handles@.subrange(i as int, handles@.len() as int);
    assert(ahead[0] == handles@[i as int]);
    i
}

/// `handles` with `replacements` in the place of the handle at `index`
fn splice(handles: &Vec<Handle<Shell>>, index: usize, replacements: &[Handle<Shell>]) -> (r: Vec<
    Handle<Shell>,
>)
    requires
        index < handles@.len(),
    ensures
        r@ == spliced(handles@, index as int, replacements@),
{
    let mut shells: Vec<Handle<Shell>> = Vec::new();
    let mut i: usize = 0;
    while i < index
        invariant
            i <= index < handles@.len(),
            shells@ == handles@.subrange(0, i as int),
        decreases index - i,
    {
        shells.push(handles[i]);
        assert(shells@ =~= handles@.subrange(0, i + 1));
        i += 1;
    }
    let mut j: usize = 0;
    while j < replacements.len()
        invariant
            j <= replacements@.len(),
            index < handles@.len(),
            shells@ == handles@.subrange(0, index as int) + replacements@.subrange(0, j as int),
        decreases replacements@.len() - j,
    {
        shells.push(replacements[j]);
        assert(shells@ =~= handles@.subrange(0, index as int) + replacements@.subrange(
            0,
            j + 1,
        ));
        j += 1;
    }
    assert(replacements@.subrange(0, j as int) == replacements@);
    assert(index < handles.len());
    let mut k: usize = index + 1;
    while k < handles.len()
        invariant
            index < k <= handles@.len(),
            shells@ == handles@.subrange(0, index as int) + replacements@ + handles@.subrange(
                index + 1,
                k as int,
            ),
        decreases handles@.len() - k,
    {
        shells.push(handles[k]);
        assert(shells@ =~= handles@.subrange(0, index as int) + replacements@
            + handles@.subrange(index + 1, k + 1));
        k += 1;
    }
    shells
}

impl UpdateSolid for Solid {
    open spec fn shells(&self) -> Seq<Handle<Shell>> {
        self.shells@
    }

    fn add_shells(&self, shells: Vec<Handle<Shell>>) -> (r: Self) {
        let mut all: Vec<Handle<Shell>> = Vec::new();
        let mut i: usize = 0;
        while i < self.shells.len()
            invariant
                i <= self.shells@.len(),
                all@ == self.shells@.subrange(0, i as int),
            decreases self.shells@.len() - i,
        {
            all.push(self.shells[i]);
            assert(all@ =~= self.shells@.subrange(0, i + 1));
            i += 1;
        }
        assert(self.shells@.subrange(0, i as int) == self.shells@);
        let mut j: usize = 0;
        while j < shells.len()
            invariant
                j <= shells@.len(),
                all@ == self.shells@ + shells@.subrange(0, j as int),
            decreases shells@.len() - j,
        {
            all.push(shells[j]);
            assert(all@ =~= self.shells@ + shells@.subrange(0, j + 1));
            j += 1;
        }
        assert(shells@.subrange(0, j as int) == shells@);
        Solid { shells: all }
    }

    fn update_shell<F: FnOnce(&Handle<Shell>) -> Handle<Shell>>(
        &self,
        handle: &Handle<Shell>,
        update: F,
    ) -> (r: Self) {
        let index = find(&self.shells, handle);
        let new = update(handle);
        let replacements = [new];
        let shells = splice(&self.shells, index, replacements.as_slice());
        assert(replacements@ =~= seq![new]);
        Solid { shells }
    }

    fn replace_shell<const N: usize, F: FnOnce(&Handle<Shell>) -> [Handle<Shell>; N]>(
        &self,
        handle: &Handle<Shell>,
        replace: F,
    ) -> (r: Self) {
        let index = find(&self.shells, handle);
        let new = replace(handle);
        let shells = splice(&self.shells, index, new.as_slice());
        Solid { shells }
    }
}

} // verus!
