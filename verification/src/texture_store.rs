use vstd::prelude::*;
use crate::error::PainterError;
use crate::pixel_buffer::{
    blit_grid, fits, handle_for, uploadable, ImageData, PixelBuffer, PixelGrid, TextureHandle,
};

verus! {

/// The key of a logical texture.
#[derive(Clone, Copy, Debug, PartialEq, Eq, Structural)]
pub enum TextureId {
    Managed(u64),
    User(u64),
}

/// One instruction to create, update or destroy a texture.
#[derive(Clone, Debug)]
pub enum TextureDelta {
    /// Replace the whole texture (`pos` is `None`) or a region of it that
    /// starts at column `pos.0`, row `pos.1`.
    SetImage { id: TextureId, image: ImageData, pos: Option<(usize, usize)> },
    Free { id: TextureId },
}

/// The image of a `SetImage` and where it goes: the whole texture (`pos` is
/// `None`) or the region that starts at column `pos.0`, row `pos.1`.
#[derive(Clone, Debug)]
pub struct ImageDelta {
    pub image: ImageData,
    pub pos: Option<(usize, usize)>,
}

/// The texture changes of one frame as the GUI hands them over: the
/// textures to set, and the textures to free once those are set.
#[derive(Clone, Debug)]
pub struct TexturesDelta {
    pub set: Vec<(TextureId, ImageDelta)>,
    pub free: Vec<TextureId>,
}

/// What the render backend has to do after a delta was applied.
#[derive(Clone, Copy, Debug, PartialEq, Eq, Structural)]
pub enum TextureAction {
    /// Create the texture described by the handle, replacing any earlier one
    /// of the same id.
    Upload(TextureHandle),
    /// Release the texture of the id.
    Release,
    /// The id was not live: nothing to release.
    Nothing,
}

/// The CPU-side mirror of one texture and the handle it was uploaded under.
#[derive(Clone, Debug)]
pub struct TextureRecord {
    pub id: TextureId,
    pub buffer: PixelBuffer,
    pub handle: TextureHandle,
}

/// The live textures, at most one record per id.
pub struct TextureStore {
    records: Vec<TextureRecord>,
}

/// The live textures after one delta. A whole-texture `SetImage` whose image
/// is well formed and can be uploaded installs that image under the id; a
/// regional one copies its well-formed image into the live texture of the
/// id, where there is one and the region lies inside it; a `Free` removes
/// the id; every other delta leaves the store as it was.
pub open spec fn spec_apply(store: Map<TextureId, PixelGrid>, delta: TextureDelta) -> Map<
    TextureId,
    PixelGrid,
> {
    match delta {
        TextureDelta::SetImage { id, image, pos: None } => if image.wf() && uploadable(
            image.grid(),
        ) {
            store.insert(id, image.grid())
        } else {
            store
        },
        TextureDelta::SetImage { id, image, pos: Some(at) } => if store.dom().contains(id)
            && image.wf() && fits(
            store[id],
            image.grid(),
            at.0 as nat,
            at.1 as nat,
        ) {
            store.insert(id, blit_grid(store[id], image.grid(), at.0 as nat, at.1 as nat))
        } else {
            store
        },
        TextureDelta::Free { id } => store.remove(id),
    }
}

/// What applying one delta reports: the upload or release that the backend
/// owes, or why the delta was dropped. A regional `SetImage` is dropped as
/// unknown where the id is not live, else as a backend failure where its
/// image is malformed, else as out of bounds where the region does not lie
/// inside the live texture.
pub open spec fn spec_outcome(store: Map<TextureId, PixelGrid>, delta: TextureDelta) -> Result<
    TextureAction,
    PainterError,
> {
    match delta {
        TextureDelta::SetImage { id, image, pos: None } => if image.wf() && uploadable(
            image.grid(),
        ) {
            Ok(TextureAction::Upload(handle_for(image.grid())))
        } else {
            Err(PainterError::RenderBackendError)
        },
        TextureDelta::SetImage { id, image, pos: Some(at) } => if !store.dom().contains(id) {
            Err(PainterError::UnknownTexture)
        } else if !image.wf() {
            Err(PainterError::RenderBackendError)
        } else if !fits(store[id], image.grid(), at.0 as nat, at.1 as nat) {
            Err(PainterError::BlitOutOfBounds)
        } else {
            Ok(TextureAction::Upload(handle_for(store[id])))
        },
        TextureDelta::Free { id } => if store.dom().contains(id) {
            Ok(TextureAction::Release)
        } else {
            Ok(TextureAction::Nothing)
        },
    }
}

/// The live textures after a queue of deltas, applied first to last.
pub open spec fn spec_apply_all(store: Map<TextureId, PixelGrid>, deltas: Seq<TextureDelta>) -> Map<
    TextureId,
    PixelGrid,
>
    decreases deltas.len(),
{
    if deltas.len() == 0 {
        store
    } else {
        spec_apply(spec_apply_all(store, deltas.drop_last()), deltas.last())
    }
}

/// The report of each delta of a queue, each made against the store as the
/// deltas before it left it.
pub open spec fn spec_outcomes(store: Map<TextureId, PixelGrid>, deltas: Seq<TextureDelta>) -> Seq<
    Result<TextureAction, PainterError>,
>
    decreases deltas.len(),
{
    if deltas.len() == 0 {
        Seq::empty()
    } else {
        spec_outcomes(store, deltas.drop_last()).push(
            spec_outcome(spec_apply_all(store, deltas.drop_last()), deltas.last()),
        )
    }
}

/// The deltas of one group in the order in which they apply: its sets as
/// given, then its frees as given.
pub open spec fn group_deltas(group: TexturesDelta) -> Seq<TextureDelta> {
    Seq::new(
        group.set@.len() + group.free@.len(),
        |i: int|
            if i < group.set@.len() {
                TextureDelta::SetImage {
                    id: group.set@[i].0,
                    image: group.set@[i].1.image,
                    pos: group.set@[i].1.pos,
                }
            } else {
                TextureDelta::Free { id: group.free@[i - group.set@.len()] }
            },
    )
}

/// The deltas of a queue of groups, oldest group first.
pub open spec fn queue_deltas(groups: Seq<TexturesDelta>) -> Seq<TextureDelta>
    decreases groups.len(),
{
    if groups.len() == 0 {
        Seq::empty()
    } else {
        queue_deltas(groups.drop_last()) + group_deltas(groups.last())
    }
}

/// Whether some record is about the id.
pub open spec fn has_id(records: Seq<TextureRecord>, id: TextureId) -> bool {
    exists|i: int| 0 <= i < records.len() && (#[trigger] records[i]).id == id
}

/// The position of a record about the id, where there is one.
pub open spec fn slot_of(records: Seq<TextureRecord>, id: TextureId) -> int {
    choose|i: int| 0 <= i < records.len() && (#[trigger] records[i]).id == id
}

/// No two records are about the same id.
pub open spec fn distinct_ids(records: Seq<TextureRecord>) -> bool {
    forall|i: int, j: int|
        0 <= i < j < records.len() ==> (#[trigger] records[i]).id != (#[trigger] records[j]).id
}

/// The content of each id that has a record.
pub open spec fn grids_of(records: Seq<TextureRecord>) -> Map<TextureId, PixelGrid> {
    Map::new(|id: TextureId| has_id(records, id), |id: TextureId| records[slot_of(records, id)].buffer@)
}

impl TextureStore {
    /// The records in the order in which their ids first became live.
    pub closed spec fn records(&self) -> Seq<TextureRecord> {
        self.records@
    }

    /// The live ids, each with the content of its texture.
    pub open spec fn view(&self) -> Map<TextureId, PixelGrid> {
        grids_of(self.records())
    }

    /// No id has two records, and every record's handle describes its buffer.
    pub open spec fn wf(&self) -> bool {
        &&& distinct_ids(self.records())
        &&& forall|i: int|
            0 <= i < self.records().len() ==> {
                let r = #[trigger] self.records()[i];
                r.buffer.wf() && uploadable(r.buffer@) && r.handle == handle_for(r.buffer@)
            }
    }

    pub fn new() -> (store: TextureStore)
        ensures
            store.wf(),
            store.records() == Seq::<TextureRecord>::empty(),
            store@ == Map::<TextureId, PixelGrid>::empty(),
    {
        let store = TextureStore { records: Vec::new() };
        proof {
            assert(store.records() =~= Seq::<TextureRecord>::empty());
            assert(store@ =~= Map::<TextureId, PixelGrid>::empty());
        }
        store
    }

    fn position(&self, id: TextureId) -> (found: Option<usize>)
        ensures
            match found {
                Some(i) => i < self.records().len() && self.records()[i as int].id == id,
                None => !has_id(self.records(), id),
            },
    {
        let mut i: usize = 0;
        while i < self.records.len()
            invariant
                i <= self.records@.len(),
                forall|j: int| 0 <= j < i ==> (#[trigger] self.records@[j]).id != id,
            decreases self.records@.len() - i,
        {
            if self.records[i].id == id {
                return Some(i);
            }
            i += 1;
        }
        None
    }

    /// Sets the texture of an id: the whole of it where `pos` is `None`, else
    /// the region that starts at column `pos.0`, row `pos.1`.
    pub fn set_image(&mut self, id: TextureId, image: &ImageData, pos: Option<(usize, usize)>) -> (outcome:
        Result<TextureAction, PainterError>)
        requires
            old(self).wf(),
        ensures
            final(self).wf(),
            final(self)@ == spec_apply(old(self)@, TextureDelta::SetImage { id, image: *image, pos }),
            outcome == spec_outcome(old(self)@, TextureDelta::SetImage { id, image: *image, pos }),
    {
        match pos {
            None => {
                if !image.is_wf() {
                    return Err(PainterError::RenderBackendError);
                }
                let buffer = PixelBuffer::from_image_data(image);
                match buffer.upload() {
                    Ok(handle) => {
                        let found = self.position(id);
                        let record = TextureRecord { id, buffer, handle };
                        let ghost before = self.records@;
                        match found {
                            Some(i) => {
                                self.records.set(i, record);
                                proof {
                                    lemma_replace(before, i as int, record);
                                }
                            },
                            None => {
                                self.records.push(record);
                                proof {
                                    lemma_push(before, record);
                                }
                            },
                        }
                        Ok(TextureAction::Upload(handle))
                    },
                    Err(e) => Err(e),
                }
            },
            Some(at) => {
                match self.position(id) {
                    None => Err(PainterError::UnknownTexture),
                    Some(i) => {
                        proof {
                            lemma_slot(self.records@, i as int);
                        }
                        if !image.is_wf() {
                            return Err(PainterError::RenderBackendError);
                        }
                        let patch = PixelBuffer::from_image_data(image);
                        let ghost before = self.records@;
                        let mut record = self.records.remove(i);
                        let handle = record.handle;
                        let blitted = record.buffer.blit(&patch, at.0, at.1);
                        self.records.insert(i, record);
                        proof {
                            assert(self.records@ =~= before.update(i as int, record));
                            lemma_replace(before, i as int, record);
                            if blitted is Err {
                                assert(self@ =~= old(self)@);
                            }
                        }
                        match blitted {
                            Ok(()) => Ok(TextureAction::Upload(handle)),
                            Err(e) => Err(e),
                        }
                    },
                }
            },
        }
    }

    /// Removes the texture of an id. An id that is not live is left alone.
    pub fn free(&mut self, id: TextureId) -> (outcome: Result<TextureAction, PainterError>)
        requires
            old(self).wf(),
        ensures
            final(self).wf(),
            final(self)@ == spec_apply(old(self)@, TextureDelta::Free { id }),
            outcome == spec_outcome(old(self)@, TextureDelta::Free { id }),
    {
        match self.position(id) {
            Some(i) => {
                let ghost before = self.records@;
                self.records.remove(i);
                proof {
                    lemma_remove(before, i as int);
                }
                Ok(TextureAction::Release)
            },
            None => {
                proof {
                    assert(self@ =~= self@.remove(id));
                }
                Ok(TextureAction::Nothing)
            },
        }
    }

    /// Applies one delta and reports what the backend has to do, or why the
    /// delta was dropped. A dropped delta leaves the store untouched.
    pub fn apply_delta(&mut self, delta: &TextureDelta) -> (outcome: Result<
        TextureAction,
        PainterError,
    >)
        requires
            old(self).wf(),
        ensures
            final(self).wf(),
            final(self)@ == spec_apply(old(self)@, *delta),
            outcome == spec_outcome(old(self)@, *delta),
    {
        match delta {
            TextureDelta::SetImage { id, image, pos } => self.set_image(*id, image, *pos),
            TextureDelta::Free { id } => self.free(*id),
        }
    }

    /// Applies one group of deltas, its sets before its frees, each kind in
    /// the order given, and adds the report of each to `outcomes`.
    pub fn apply_group(
        &mut self,
        group: &TexturesDelta,
        outcomes: &mut Vec<Result<TextureAction, PainterError>>,
    )
        requires
            old(self).wf(),
        ensures
            final(self).wf(),
            final(self)@ == spec_apply_all(old(self)@, group_deltas(*group)),
            final(outcomes)@ == old(outcomes)@ + spec_outcomes(old(self)@, group_deltas(*group)),
    {
        let ghost start = self@;
        let ghost base = outcomes@;
        let ghost deltas = group_deltas(*group);
        let mut i: usize = 0;
        while i < group.set.len()
            invariant
                i <= group.set@.len(),
                self.wf(),
                deltas == group_deltas(*group),
                self@ == spec_apply_all(start, deltas.take(i as int)),
                outcomes@ == base + spec_outcomes(start, deltas.take(i as int)),
            decreases group.set@.len() - i,
        {
            proof {
                assert(deltas.take(i + 1).drop_last() =~= deltas.take(i as int));
                assert(deltas.take(i + 1).last() == deltas[i as int]);
            }
            let entry = &group.set[i];
            let outcome = self.set_image(entry.0, &entry.1.image, entry.1.pos);
            outcomes.push(outcome);
            proof {
                assert(outcomes@ =~= base + spec_outcomes(start, deltas.take(i + 1)));
            }
            i += 1;
        }
        let sets = group.set.len();
        let mut j: usize = 0;
        while j < group.free.len()
            invariant
                j <= group.free@.len(),
                sets == group.set@.len(),
                self.wf(),
                deltas == group_deltas(*group),
                self@ == spec_apply_all(start, deltas.take(sets + j)),
                outcomes@ == base + spec_outcomes(start, deltas.take(sets + j)),
            decreases group.free@.len() - j,
        {
            proof {
                assert(deltas.take(sets + j + 1).drop_last() =~= deltas.take(sets + j));
                assert(deltas.take(sets + j + 1).last() == deltas[sets + j]);
            }
            let outcome = self.free(group.free[j]);
            outcomes.push(outcome);
            proof {
                assert(outcomes@ =~= base + spec_outcomes(start, deltas.take(sets + j + 1)));
            }
            j += 1;
        }
        proof {
            assert(deltas.take(sets + j) =~= deltas);
        }
    }

    /// Applies a queue of deltas strictly first to last and reports on each.
    pub fn apply_all(&mut self, deltas: &Vec<TextureDelta>) -> (outcomes: Vec<
        Result<TextureAction, PainterError>,
    >)
        requires
            old(self).wf(),
        ensures
            final(self).wf(),
            final(self)@ == spec_apply_all(old(self)@, deltas@),
            outcomes@ == spec_outcomes(old(self)@, deltas@),
    {
        let mut outcomes: Vec<Result<TextureAction, PainterError>> = Vec::new();
        let ghost start = self@;
        let mut i: usize = 0;
        while i < deltas.len()
            invariant
                i <= deltas@.len(),
                self.wf(),
                self@ == spec_apply_all(start, deltas@.take(i as int)),
                outcomes@ == spec_outcomes(start, deltas@.take(i as int)),
            decreases deltas@.len() - i,
        {
            proof {
                assert(deltas@.take(i + 1).drop_last() =~= deltas@.take(i as int));
                assert(deltas@.take(i + 1).last() == deltas@[i as int]);
            }
            let outcome = self.apply_delta(&deltas[i]);
            outcomes.push(outcome);
            i += 1;
        }
        proof {
            assert(deltas@.take(i as int) =~= deltas@);
        }
        outcomes
    }

    /// The handle of a live texture; `UnknownTexture` for any other id.
    pub fn lookup(&self, id: TextureId) -> (result: Result<TextureHandle, PainterError>)
        requires
            self.wf(),
        ensures
            self@.dom().contains(id) ==> result == Ok::<TextureHandle, PainterError>(
                handle_for(self@[id]),
            ),
            !self@.dom().contains(id) ==> result == Err::<TextureHandle, PainterError>(
                PainterError::UnknownTexture,
            ),
    {
        match self.position(id) {
            Some(i) => {
                proof {
                    lemma_slot(self.records@, i as int);
                }
                Ok(self.records[i].handle)
            },
            None => Err(PainterError::UnknownTexture),
        }
    }

    /// The CPU-side pixels of a live texture.
    pub fn buffer(&self, id: TextureId) -> (result: Option<&PixelBuffer>)
        requires
            self.wf(),
        ensures
            match result {
                Some(buffer) => self@.dom().contains(id) && buffer@ == self@[id] && buffer.wf(),
                None => !self@.dom().contains(id),
            },
    {
        match self.position(id) {
            Some(i) => {
                proof {
                    lemma_slot(self.records@, i as int);
                }
                Some(&self.records[i].buffer)
            },
            None => None,
        }
    }

    /// How many textures are live.
    pub fn len(&self) -> (n: usize)
        ensures
            n == self.records().len(),
    {
        self.records.len()
    }
}

/// Applying one queue after another is applying the two joined: the store
/// ends up the same, and so do the reports.
pub proof fn lemma_apply_all_concat(
    store: Map<TextureId, PixelGrid>,
    first: Seq<TextureDelta>,
    second: Seq<TextureDelta>,
)
    ensures
        spec_apply_all(store, first + second) == spec_apply_all(
            spec_apply_all(store, first),
            second,
        ),
        spec_outcomes(store, first + second) == spec_outcomes(store, first) + spec_outcomes(
            spec_apply_all(store, first),
            second,
        ),
    decreases second.len(),
{
    if second.len() == 0 {
        assert(first + second =~= first);
        assert(spec_outcomes(store, first) + Seq::<Result<TextureAction, PainterError>>::empty()
            =~= spec_outcomes(store, first));
    } else {
        assert((first + second).drop_last() =~= first + second.drop_last());
        assert((first + second).last() == second.last());
        lemma_apply_all_concat(store, first, second.drop_last());
        let middle = spec_apply_all(store, first);
        assert(spec_outcomes(store, first + second) =~= spec_outcomes(store, first)
            + spec_outcomes(middle, second));
    }
}

/// Freeing an id and then setting it to a whole image that can be uploaded
/// leaves the store with exactly one record for the id, which holds the new
/// image; nothing of the freed record is left.
pub proof fn lemma_free_then_set(
    before: TextureStore,
    freed: TextureStore,
    after: TextureStore,
    id: TextureId,
    image: ImageData,
)
    requires
        freed.wf(),
        after.wf(),
        image.wf(),
        uploadable(image.grid()),
        freed@ == spec_apply(before@, TextureDelta::Free { id }),
        after@ == spec_apply(freed@, TextureDelta::SetImage { id, image, pos: None }),
    ensures
        !freed@.dom().contains(id),
        after@ == before@.insert(id, image.grid()),
        exists|i: int| 0 <= i < after.records().len() && (#[trigger] after.records()[i]).id == id,
        forall|i: int, j: int|
            0 <= i < after.records().len() && 0 <= j < after.records().len() && (
            #[trigger] after.records()[i]).id == id && (#[trigger] after.records()[j]).id == id
                ==> i == j,
{
    assert(after@ =~= before@.insert(id, image.grid()));
    assert(after@.dom().contains(id));
    assert(has_id(after.records(), id));
    assert forall|i: int, j: int|
        0 <= i < after.records().len() && 0 <= j < after.records().len() && (
        #[trigger] after.records()[i]).id == id && (#[trigger] after.records()[j]).id == id implies i
        == j by {
        if i < j {
            assert(after.records()[i].id != after.records()[j].id);
        } else if j < i {
            assert(after.records()[j].id != after.records()[i].id);
        }
    }
}

/// Among records with distinct ids, the slot of an id is the index that holds it.
pub proof fn lemma_slot(records: Seq<TextureRecord>, i: int)
    requires
        distinct_ids(records),
        0 <= i < records.len(),
    ensures
        has_id(records, records[i].id),
        slot_of(records, records[i].id) == i,
        grids_of(records)[records[i].id] == records[i].buffer@,
{
    let id = records[i].id;
    assert(has_id(records, id));
    let s = slot_of(records, id);
    assert(0 <= s < records.len() && records[s].id == id);
    if s < i {
        assert(records[s].id != records[i].id);
    } else if i < s {
        assert(records[i].id != records[s].id);
    }
}

proof fn lemma_push(records: Seq<TextureRecord>, record: TextureRecord)
    requires
        distinct_ids(records),
        !has_id(records, record.id),
    ensures
        distinct_ids(records.push(record)),
        grids_of(records.push(record)) == grids_of(records).insert(record.id, record.buffer@),
{
    let after = records.push(record);
    assert forall|i: int, j: int| 0 <= i < j < after.len() implies (#[trigger] after[i]).id != (
    #[trigger] after[j]).id by {
        assert(after[i] == records[i]);
        if j < records.len() {
            assert(after[j] == records[j]);
        }
    }
    assert(after[records.len() as int] == record);
    lemma_same_elsewhere(records, after, record);
}

proof fn lemma_replace(records: Seq<TextureRecord>, at: int, record: TextureRecord)
    requires
        distinct_ids(records),
        0 <= at < records.len(),
        records[at].id == record.id,
    ensures
        distinct_ids(records.update(at, record)),
        grids_of(records.update(at, record)) == grids_of(records).insert(
            record.id,
            record.buffer@,
        ),
{
    let after = records.update(at, record);
    assert forall|i: int, j: int| 0 <= i < j < after.len() implies (#[trigger] after[i]).id != (
    #[trigger] after[j]).id by {
        assert(after[i].id == records[i].id);
        assert(after[j].id == records[j].id);
    }
    assert(after[at] == record);
    lemma_same_elsewhere(records, after, record);
}

/// Where `after` holds `record` under its id and agrees with `before` on every
/// other id, its grids are those of `before` with the record's grid put in.
proof fn lemma_same_elsewhere(
    before: Seq<TextureRecord>,
    after: Seq<TextureRecord>,
    record: TextureRecord,
)
    requires
        distinct_ids(before),
        distinct_ids(after),
        exists|k: int| 0 <= k < after.len() && after[k] == record,
        forall|i: int|
            0 <= i < before.len() && (#[trigger] before[i]).id != record.id ==> i < after.len()
                && after[i] == before[i],
        forall|i: int|
            0 <= i < after.len() && (#[trigger] after[i]).id != record.id ==> i < before.len()
                && after[i] == before[i],
    ensures
        grids_of(after) == grids_of(before).insert(record.id, record.buffer@),
{
    let k = choose|k: int| 0 <= k < after.len() && after[k] == record;
    lemma_slot(after, k);
    let want = grids_of(before).insert(record.id, record.buffer@);
    assert forall|id: TextureId| grids_of(after).dom().contains(id) <==> want.dom().contains(
        id,
    ) by {
        if id != record.id {
            if has_id(after, id) {
                let i = slot_of(after, id);
                assert(before[i].id == id);
            }
            if has_id(before, id) {
                let i = slot_of(before, id);
                assert(after[i].id == id);
            }
        }
    }
    assert forall|id: TextureId| grids_of(after).dom().contains(id) implies grids_of(after)[id]
        == want[id] by {
        if id != record.id {
            let i = slot_of(after, id);
            assert(before[i] == after[i]);
            lemma_slot(before, i);
        }
    }
    assert(grids_of(after) =~= want);
}

proof fn lemma_remove(records: Seq<TextureRecord>, at: int)
    requires
        distinct_ids(records),
        0 <= at < records.len(),
    ensures
        distinct_ids(records.remove(at)),
        grids_of(records.remove(at)) == grids_of(records).remove(records[at].id),
{
    let after = records.remove(at);
    let gone = records[at].id;
    assert forall|i: int, j: int| 0 <= i < j < after.len() implies (#[trigger] after[i]).id != (
    #[trigger] after[j]).id by {
        let si = if i < at { i } else { i + 1 };
        let sj = if j < at { j } else { j + 1 };
        assert(after[i] == records[si]);
        assert(after[j] == records[sj]);
    }
    let want = grids_of(records).remove(gone);
    assert forall|id: TextureId| grids_of(after).dom().contains(id) <==> want.dom().contains(
        id,
    ) by {
        if has_id(after, id) {
            let i = slot_of(after, id);
            let si = if i < at { i } else { i + 1 };
            assert(after[i] == records[si]);
            assert(records[si].id == id);
            if id == gone {
                if si < at {
                    assert(records[si].id != records[at].id);
                } else {
                    assert(records[at].id != records[si].id);
                }
            }
        }
        if has_id(records, id) && id != gone {
            let s = slot_of(records, id);
            let i = if s < at { s } else { s - 1 };
            assert(after[i] == records[s]);
            assert(after[i].id == id);
        }
    }
    assert forall|id: TextureId| grids_of(after).dom().contains(id) implies grids_of(after)[id]
        == want[id] by {
        let i = slot_of(after, id);
        let si = if i < at { i } else { i + 1 };
        assert(after[i] == records[si]);
        lemma_slot(records, si);
    }
    assert(grids_of(after) =~= want);
}

} // verus!
