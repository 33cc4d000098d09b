//! The catalog builder: tensors grouped by type tag and shape, with the
//! number of tensors in each group and the treatment chosen for it.

use crate::tensors::{models_of, TensorInfo, TensorModel};
use vstd::prelude::*;

verus! {

broadcast use vstd::seq_lib::group_to_multiset_ensures;

/// A shape class: the type tag and shape that a group of tensors shares.
#[derive(Debug)]
pub struct QuantizeKey {
    pub dtype: String,
    pub shape: Vec<usize>,
}

/// What is done to the tensors of a shape class.
#[allow(non_camel_case_types)]
#[derive(Debug, Clone, Copy, PartialEq, Eq, Structural)]
pub enum QuantizeTreatment {
    keep,
    q4_0,
    q4_1,
    q5_0,
    q5_1,
    q8_0,
}

/// The catalog's record of one shape class.
#[derive(Debug, Clone, Copy)]
pub struct QuantizeInfo {
    /// how many tensors are of this shape class
    pub count: usize,
    pub treatment: QuantizeTreatment,
}

/// Shape classes and, at the same index, their records.
#[derive(Debug)]
pub struct Catalog {
    pub keys: Vec<QuantizeKey>,
    pub infos: Vec<QuantizeInfo>,
}

/// A plan: the container's metadata and the catalog.
#[derive(Debug)]
pub struct QuantizePlan {
    pub metadata: Option<Vec<(String, String)>>,
    pub catalog: Catalog,
}

/// A shape class as a mathematical value.
pub type ShapeClass = (Seq<char>, Seq<usize>);

/// The shape class of a tensor.
pub open spec fn class_of(t: TensorModel) -> ShapeClass {
    (t.dtype, t.shape)
}

/// How many of `tensors` are of shape class `class`.
pub open spec fn class_count(tensors: Seq<TensorModel>, class: ShapeClass) -> nat
    decreases tensors.len(),
{
    if tensors.len() == 0 {
        0
    } else {
        class_count(tensors.drop_last(), class) + if class_of(tensors.last()) == class {
            1nat
        } else {
            0nat
        }
    }
}

impl QuantizeKey {
    /// The shape class that the key names.
    pub open spec fn view(&self) -> ShapeClass {
        (self.dtype@, self.shape@)
    }
}

impl Catalog {
    /// One record per key, and no shape class under two keys.
    pub open spec fn wf(&self) -> bool {
        &&& self.keys@.len() == self.infos@.len()
        &&& forall|i: int, j: int|
            0 <= i < j < self.keys@.len() ==> (#[trigger] self.keys@[i])@ != (
            #[trigger] self.keys@[j])@
    }

    /// Whether the catalog describes `class`.
    pub open spec fn describes(&self, class: ShapeClass) -> bool {
        exists|j: int| 0 <= j < self.keys@.len() && (#[trigger] self.keys@[j])@ == class
    }

    /// Whether the catalog is the count of `tensors` by shape class: every
    /// class that occurs has a key, and every key carries the number of
    /// tensors of its class, which is not zero.
    pub open spec fn counts(&self, tensors: Seq<TensorModel>) -> bool {
        &&& self.wf()
        &&& forall|j: int|
            0 <= j < self.keys@.len() ==> (#[trigger] self.infos@[j]).count == class_count(
                tensors,
                self.keys@[j]@,
            ) && self.infos@[j].count > 0
        &&& forall|class: ShapeClass|
            class_count(tensors, class) > 0 ==> #[trigger] self.describes(class)
    }

    /// Whether the catalog is well formed.
    pub fn is_wf(&self) -> (r: bool)
        ensures
            r == self.wf(),
    {
        if self.keys.len() != self.infos.len() {
            return false;
        }
        let mut j: usize = 0;
        while j < self.keys.len()
            invariant
                j <= self.keys@.len(),
                forall|a: int, b: int|
                    0 <= a < b < j ==> (#[trigger] self.keys@[a])@ != (#[trigger] self.keys@[b])@,
            decreases self.keys@.len() - j,
        {
            let mut a: usize = 0;
            while a < j
                invariant
                    a <= j < self.keys@.len(),
                    forall|x: int| 0 <= x < a ==> (#[trigger] self.keys@[x])@ != self.keys@[j as int]@,
                decreases j - a,
            {
                if self.keys[a].dtype == self.keys[j].dtype && same_shape(
                    &self.keys[a].shape,
                    &self.keys[j].shape,
                ) {
                    assert(self.keys@[a as int]@ == self.keys@[j as int]@);
                    return false;
                }
                a = a + 1;
            }
            j = j + 1;
        }
        true
    }

    /// The index of the key for a type tag and shape.
    pub fn find(&self, dtype: &String, shape: &Vec<usize>) -> (r: Option<usize>)
        requires
            self.wf(),
        ensures
            match r {
                Some(j) => j < self.keys@.len() && self.keys@[j as int]@ == (dtype@, shape@),
                None => !self.describes((dtype@, shape@)),
            },
    {
        let mut j: usize = 0;
        while j < self.keys.len()
            invariant
                j <= self.keys@.len(),
                forall|k: int| 0 <= k < j ==> (#[trigger] self.keys@[k])@ != (dtype@, shape@),
            decreases self.keys@.len() - j,
        {
            if self.keys[j].dtype == *dtype && same_shape(&self.keys[j].shape, shape) {
                return Some(j);
            }
            j = j + 1;
        }
        None
    }
}

/// Whether two shapes are equal, dimension by dimension.
pub fn same_shape(a: &Vec<usize>, b: &Vec<usize>) -> (r: bool)
    ensures
        r == (a@ == b@),
{
    if a.len() != b.len() {
        return false;
    }
    let mut i: usize = 0;
    while i < a.len()
        invariant
            i <= a@.len(),
            a@.len() == b@.len(),
            forall|k: int| 0 <= k < i ==> a@[k] == b@[k],
        decreases a@.len() - i,
    {
        if a[i] != b[i] {
            return false;
        }
        i = i + 1;
    }
    assert(a@ =~= b@);
    true
}

/// A copy of a shape.
pub fn copy_shape(shape: &Vec<usize>) -> (r: Vec<usize>)
    ensures
        r@ == shape@,
{
    let mut out: Vec<usize> = Vec::new();
    let mut i: usize = 0;
    while i < shape.len()
        invariant
            i <= shape@.len(),
            out@ == shape@.take(i as int),
        decreases shape@.len() - i,
    {
        out.push(shape[i]);
        assert(shape@.take(i + 1) =~= shape@.take(i as int).push(shape@[i as int]));
        i = i + 1;
    }
    assert(shape@.take(shape@.len() as int) =~= shape@);
    out
}

/// No more tensors are of a class than there are tensors.
pub proof fn lemma_class_count_bound(tensors: Seq<TensorModel>, class: ShapeClass)
    ensures
        class_count(tensors, class) <= tensors.len(),
    decreases tensors.len(),
{
    if tensors.len() > 0 {
        lemma_class_count_bound(tensors.drop_last(), class);
    }
}

/// The count of a class is the number of times the class occurs in the
/// multiset of the tensors' classes.
pub proof fn lemma_class_count_is_multiplicity(tensors: Seq<TensorModel>, class: ShapeClass)
    ensures
        class_count(tensors, class) == tensors.map_values(|t: TensorModel| class_of(t))
            .to_multiset().count(class),
    decreases tensors.len(),
{
    let classes = tensors.map_values(|t: TensorModel| class_of(t));
    if tensors.len() == 0 {
        assert(classes =~= Seq::<ShapeClass>::empty());
        assert(classes.to_multiset().len() == 0);
    } else {
        let front = tensors.drop_last();
        lemma_class_count_is_multiplicity(front, class);
        let front_classes = front.map_values(|t: TensorModel| class_of(t));
        assert(classes =~= front_classes.push(class_of(tensors.last())));
        assert(classes.to_multiset() =~= front_classes.to_multiset().insert(
            class_of(tensors.last()),
        ));
    }
}

/// Two populations with the same classes, each as often, count alike:
/// neither the tensors' names nor their order nor their bytes matter.
pub proof fn lemma_counts_depend_on_classes_only(
    a: Seq<TensorModel>,
    b: Seq<TensorModel>,
    class: ShapeClass,
)
    requires
        a.map_values(|t: TensorModel| class_of(t)).to_multiset() == b.map_values(
            |t: TensorModel| class_of(t),
        ).to_multiset(),
    ensures
        class_count(a, class) == class_count(b, class),
{
    lemma_class_count_is_multiplicity(a, class);
    lemma_class_count_is_multiplicity(b, class);
}

/// Two catalogs that count populations with the same classes agree: they
/// describe the same classes and give each the same count.
pub proof fn lemma_catalogs_agree(
    first: Catalog,
    second: Catalog,
    a: Seq<TensorModel>,
    b: Seq<TensorModel>,
    i: int,
)
    requires
        first.counts(a),
        second.counts(b),
        a.map_values(|t: TensorModel| class_of(t)).to_multiset() == b.map_values(
            |t: TensorModel| class_of(t),
        ).to_multiset(),
        0 <= i < first.keys@.len(),
    ensures
        exists|j: int|
            0 <= j < second.keys@.len() && (#[trigger] second.keys@[j])@ == first.keys@[i]@
                && second.infos@[j].count == first.infos@[i].count,
{
    let class = first.keys@[i]@;
    lemma_counts_depend_on_classes_only(a, b, class);
    assert(first.infos@[i].count > 0);
    assert(second.describes(class));
}

/// Counts the tensors of each shape class. Every class starts with the
/// treatment `keep`.
pub fn build_catalog<'a>(tensors: &Vec<(String, TensorInfo<'a>)>) -> (r: Catalog)
    ensures
        r.counts(models_of(tensors@)),
        forall|j: int|
            0 <= j < r.infos@.len() ==> (#[trigger] r.infos@[j]).treatment
                == QuantizeTreatment::keep,
{
    let mut catalog = Catalog { keys: Vec::new(), infos: Vec::new() };
    let ghost all = models_of(tensors@);
    let mut i: usize = 0;
    while i < tensors.len()
        invariant
            i <= tensors@.len(),
            all == models_of(tensors@),
            catalog.counts(all.take(i as int)),
            forall|j: int|
                0 <= j < catalog.infos@.len() ==> (#[trigger] catalog.infos@[j]).treatment
                    == QuantizeTreatment::keep,
        decreases tensors@.len() - i,
    {
        let ghost seen = all.take(i as int);
        let ghost next = all.take(i + 1);
        let ghost class = (tensors@[i as int].1.dtype@, tensors@[i as int].1.shape@);
        let ghost before = catalog;
        proof {
            assert(next.drop_last() =~= seen);
            assert(class_of(next.last()) == class);
            assert forall|c: ShapeClass| class_count(next, c) == class_count(seen, c) + if c
                == class {
                1nat
            } else {
                0nat
            } by {}
        }
        match catalog.find(&tensors[i].1.dtype, &tensors[i].1.shape) {
            Some(j) => {
                proof {
                    lemma_class_count_bound(seen, class);
                }
                let info: QuantizeInfo = catalog.infos[j];
                catalog.infos.set(
                    j,
                    QuantizeInfo { count: info.count + 1, treatment: info.treatment },
                );
                proof {
                    assert forall|c: ShapeClass| class_count(next, c) > 0 implies
                        #[trigger] catalog.describes(c) by {
                        if c == class {
                            assert(catalog.keys@[j as int]@ == c);
                        } else {
                            assert(before.describes(c));
                            let k = choose|k: int|
                                0 <= k < before.keys@.len() && (#[trigger] before.keys@[k])@ == c;
                            assert(catalog.keys@[k]@ == c);
                        }
                    }
                }
            },
            None => {
                let key = QuantizeKey {
                    dtype: tensors[i].1.dtype.clone(),
                    shape: copy_shape(&tensors[i].1.shape),
                };
                catalog.keys.push(key);
                catalog.infos.push(QuantizeInfo { count: 1, treatment: QuantizeTreatment::keep });
                proof {
                    assert(!before.describes(class));
                    assert(class_count(seen, class) == 0);
                    let last = before.keys@.len() as int;
                    assert(catalog.keys@[last]@ == class);
                    assert forall|a: int, b: int|
                        0 <= a < b < catalog.keys@.len() implies (#[trigger] catalog.keys@[a])@
                        != (#[trigger] catalog.keys@[b])@ by {
                        if b == last {
                            assert(before.keys@[a]@ != class);
                        }
                    }
                    assert forall|c: ShapeClass| class_count(next, c) > 0 implies
                        #[trigger] catalog.describes(c) by {
                        if c == class {
                            assert(catalog.keys@[last]@ == c);
                        } else {
                            assert(before.describes(c));
                            let k = choose|k: int|
                                0 <= k < before.keys@.len() && (#[trigger] before.keys@[k])@ == c;
                            assert(catalog.keys@[k]@ == c);
                        }
                    }
                }
            },
        }
        i = i + 1;
    }
    proof {
        assert(all.take(tensors@.len() as int) =~= all);
    }
    catalog
}

/// The plan for a container: its metadata, carried over as it is, and the
/// catalog of its tensors with every treatment `keep`.
pub fn build_plan<'a>(
    metadata: Option<Vec<(String, String)>>,
    tensors: &Vec<(String, TensorInfo<'a>)>,
) -> (r: QuantizePlan)
    ensures
        r.metadata == metadata,
        r.catalog.counts(models_of(tensors@)),
        forall|j: int|
            0 <= j < r.catalog.infos@.len() ==> (#[trigger] r.catalog.infos@[j]).treatment
                == QuantizeTreatment::keep,
{
    QuantizePlan { metadata, catalog: build_catalog(tensors) }
}

} // verus!
