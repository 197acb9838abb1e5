//! Car records and the in-memory store that owns them.
use crate::text::{decimal, decimal_text};
use vstd::prelude::*;
use vstd::string::StringExecFns;

verus! {

/// A car record. An `id` of 0 in a request body means "not given".
#[derive(Clone, Debug)]
pub struct Car {
    pub id: u32,
    pub brand: String,
    pub model: String,
    pub year: u16,
}

/// A car as values.
pub struct CarView {
    pub id: u32,
    pub brand: Seq<char>,
    pub model: Seq<char>,
    pub year: u16,
}

impl View for Car {
    type V = CarView;

    open spec fn view(&self) -> CarView {
        CarView { id: self.id, brand: self.brand@, model: self.model@, year: self.year }
    }
}

pub open spec fn cars_view(v: Seq<Car>) -> Seq<CarView> {
    v.map_values(|c: Car| c@)
}

impl Car {
    /// A copy with the same fields.
    pub fn duplicate(&self) -> (r: Car)
        ensures
            r@ == self@,
    {
        Car { id: self.id, brand: self.brand.clone(), model: self.model.clone(), year: self.year }
    }
}

/// The id a request body without one stands for.
pub fn default_car_id() -> (r: u32)
    ensures
        r == 0,
{
    0
}

/// Why a store operation failed.
#[derive(PartialEq, Debug)]
pub enum StoreError {
    NotFound(String),
    Internal(String),
}

pub enum StoreErrorView {
    NotFound(Seq<char>),
    Internal(Seq<char>),
}

impl View for StoreError {
    type V = StoreErrorView;

    open spec fn view(&self) -> StoreErrorView {
        match self {
            StoreError::NotFound(m) => StoreErrorView::NotFound(m@),
            StoreError::Internal(m) => StoreErrorView::Internal(m@),
        }
    }
}

/// "car with id=<id> not found"
pub open spec fn not_found_message(id: u32) -> Seq<char> {
    "car with id="@ + decimal(id as nat) + " not found"@
}

fn not_found(id: u32) -> (r: StoreError)
    ensures
        r@ == StoreErrorView::NotFound(not_found_message(id)),
{
    let mut m = String::from_str("car with id=");
    let d = decimal_text(id as u64);
    m.append(d.as_str());
    m.append(" not found");
    StoreError::NotFound(m)
}

/// Position of the first car with `id`, or -1.
pub open spec fn first_index(cars: Seq<CarView>, id: u32) -> int
    decreases cars.len(),
{
    if cars.len() == 0 {
        -1
    } else if cars[0].id == id {
        0
    } else {
        let r = first_index(cars.drop_first(), id);
        if r < 0 {
            -1
        } else {
            r + 1
        }
    }
}

pub proof fn lemma_first_index(cars: Seq<CarView>, id: u32, i: int)
    requires
        0 <= i <= cars.len(),
        forall|j: int| 0 <= j < i ==> cars[j].id != id,
    ensures
        i < cars.len() && cars[i].id == id ==> first_index(cars, id) == i,
        i == cars.len() ==> first_index(cars, id) == -1,
    decreases i,
{
    if i > 0 {
        lemma_first_index(cars.drop_first(), id, i - 1);
    } else if cars.len() > 0 && cars[0].id != id {
        lemma_first_index_range(cars, id);
    }
}

proof fn lemma_first_index_range(cars: Seq<CarView>, id: u32)
    ensures
        -1 <= first_index(cars, id) < cars.len(),
        first_index(cars, id) >= 0 ==> cars[first_index(cars, id)].id == id,
    decreases cars.len(),
{
    if cars.len() > 0 {
        lemma_first_index_range(cars.drop_first(), id);
    }
}

/// What `MemCarStore::get_car` answers on `cars`: the first car with
/// `id`, or "not found".
pub open spec fn get_car_answer(cars: Seq<CarView>, id: u32, r: Result<Car, StoreError>) -> bool {
    &&& first_index(cars, id) < 0 ==> r is Err && r->Err_0@ == StoreErrorView::NotFound(
        not_found_message(id),
    )
    &&& first_index(cars, id) >= 0 ==> r is Ok && r->Ok_0@ == cars[first_index(cars, id)]
}

/// A car appended under an id no earlier car has is the first with it.
pub proof fn lemma_first_index_push(cars: Seq<CarView>, car: CarView)
    requires
        first_index(cars, car.id) < 0,
    ensures
        first_index(cars.push(car), car.id) == cars.len(),
    decreases cars.len(),
{
    if cars.len() > 0 {
        assert(cars.push(car).drop_first() =~= cars.drop_first().push(car));
        assert(cars[0].id != car.id);
        lemma_first_index_push(cars.drop_first(), car);
    }
}

/// The id after `n` in the store's counter, which wraps.
pub open spec fn next_after(n: u32) -> u32 {
    if n == u32::MAX {
        0
    } else {
        (n + 1) as u32
    }
}

/// Cars kept in memory, with the id the next created car gets.
pub struct MemCarStore {
    cars: Vec<Car>,
    next_id: u32,
}

impl MemCarStore {
    pub closed spec fn cars(&self) -> Seq<CarView> {
        cars_view(self.cars@)
    }

    pub closed spec fn next_id(&self) -> u32 {
        self.next_id
    }

    /// Every car's id is below the next id, and no two cars share one.
    pub open spec fn wf(&self) -> bool {
        &&& forall|i: int| 0 <= i < self.cars().len() ==> #[trigger] self.cars()[i].id < self.next_id()
        &&& forall|i: int, j: int|
            0 <= i < j < self.cars().len() ==> #[trigger] self.cars()[i].id != #[trigger] self.cars()[j].id
    }

    /// A store holding three sample cars, ids 1 to 3; the next id is 4.
    pub fn init() -> (r: MemCarStore)
        ensures
            r.cars() == seq![
                CarView { id: 1, brand: "Ford"@, model: "Bronco"@, year: 2022 },
                CarView { id: 2, brand: "Hyundai"@, model: "Santa Fe"@, year: 2010 },
                CarView { id: 3, brand: "Dodge"@, model: "Challenger"@, year: 2015 },
            ],
            r.next_id() == 4,
            r.wf(),
    {
        let cars = vec![
            Car { id: 1, brand: String::from_str("Ford"), model: String::from_str("Bronco"), year: 2022 },
            Car { id: 2, brand: String::from_str("Hyundai"), model: String::from_str("Santa Fe"), year: 2010 },
            Car { id: 3, brand: String::from_str("Dodge"), model: String::from_str("Challenger"), year: 2015 },
        ];
        let r = MemCarStore { cars, next_id: 4 };
        assert(r.cars() =~= seq![
            CarView { id: 1, brand: "Ford"@, model: "Bronco"@, year: 2022 },
            CarView { id: 2, brand: "Hyundai"@, model: "Santa Fe"@, year: 2010 },
            CarView { id: 3, brand: "Dodge"@, model: "Challenger"@, year: 2015 },
        ]);
        r
    }

    /// Adds a car under the next id and returns that id.
    pub fn create_car(&mut self, brand: String, model: String, year: u16) -> (r: u32)
        ensures
            r == old(self).next_id(),
            final(self).cars() == old(self).cars().push(
                CarView { id: r, brand: brand@, model: model@, year },
            ),
            final(self).next_id() == next_after(old(self).next_id()),
    {
        let id = self.next_id;
        self.cars.push(Car { id, brand, model, year });
        self.next_id = if id == u32::MAX {
            0
        } else {
            id + 1
        };
        assert(self.cars() =~= old(self).cars().push(CarView { id, brand: brand@, model: model@, year }));
        id
    }

    /// Position of the first car with `id`.
    fn position(&self, id: u32) -> (r: Option<usize>)
        ensures
            r is None ==> first_index(self.cars(), id) == -1,
            r matches Some(i) ==> i == first_index(self.cars(), id) && i < self.cars().len(),
    {
        let mut i: usize = 0;
        while i < self.cars.len()
            invariant
                i <= self.cars@.len(),
                forall|j: int| 0 <= j < i ==> self.cars()[j].id != id,
            decreases self.cars@.len() - i,
        {
            if self.cars[i].id == id {
                proof {
                    lemma_first_index(self.cars(), id, i as int);
                }
                return Some(i);
            }
            i = i + 1;
        }
        proof {
            lemma_first_index(self.cars(), id, i as int);
        }
        None
    }

    /// Replaces brand, model and year of the first car with `car.id`.
    pub fn update_car(&mut self, car: Car) -> (r: Result<(), StoreError>)
        ensures
            mem_update_answer(*old(self), *final(self), car@, r),
    {
        match self.position(car.id) {
            None => Err(not_found(car.id)),
            Some(i) => {
                proof {
                    lemma_first_index_range(self.cars(), car.id);
                }
                let _ = self.cars.remove(i);
                self.cars.insert(i, car);
                assert(self.cars() =~= old(self).cars().update(i as int, car@));
                Ok(())
            }
        }
    }

    /// The first car with `id`.
    pub fn get_car(&self, id: u32) -> (r: Result<Car, StoreError>)
        ensures
            get_car_answer(self.cars(), id, r),
    {
        match self.position(id) {
            None => Err(not_found(id)),
            Some(i) => Ok(self.cars[i].duplicate()),
        }
    }

    /// Every car, in the order they were added.
    pub fn get_all_cars(&self) -> (r: Vec<Car>)
        ensures
            cars_view(r@) == self.cars(),
    {
        let mut out: Vec<Car> = Vec::new();
        let mut i: usize = 0;
        while i < self.cars.len()
            invariant
                i <= self.cars@.len(),
                cars_view(out@) == self.cars().subrange(0, i as int),
            decreases self.cars@.len() - i,
        {
            let ghost before = out@;
            out.push(self.cars[i].duplicate());
            assert(cars_view(out@) =~= cars_view(before).push(self.cars@[i as int]@));
            i = i + 1;
            assert(cars_view(out@) =~= self.cars().subrange(0, i as int));
        }
        assert(self.cars().subrange(0, i as int) =~= self.cars());
        out
    }

    /// Removes the first car with `id`.
    pub fn delete_car(&mut self, id: u32) -> (r: Result<(), StoreError>)
        ensures
            mem_delete_answer(*old(self), *final(self), id, r),
    {
        match self.position(id) {
            None => Err(not_found(id)),
            Some(i) => {
                let _ = self.cars.remove(i);
                assert(self.cars() =~= old(self).cars().remove(i as int));
                Ok(())
            }
        }
    }

    /// Removes every car; ids start again at 1.
    pub fn delete_all_cars(&mut self)
        ensures
            final(self).cars() == Seq::<CarView>::empty(),
            final(self).next_id() == 1,
    {
        self.cars.clear();
        self.next_id = 1;
        assert(self.cars() =~= Seq::<CarView>::empty());
    }
}

/// A store of car records. Each call answers with the records or with why
/// it failed; how records are kept is up to the implementation.
pub trait CarStore {
    fn create_car(&mut self, brand: String, model: String, year: u16) -> Result<u32, StoreError>;

    fn update_car(&mut self, car: Car) -> Result<(), StoreError>;

    fn get_car(&self, id: u32) -> Result<Car, StoreError>;

    fn get_all_cars(&self) -> Result<Vec<Car>, StoreError>;

    fn delete_car(&mut self, id: u32) -> Result<(), StoreError>;

    fn delete_all_cars(&mut self) -> Result<(), StoreError>;
}

/// The in-memory store's answer to an update of `car`.
pub open spec fn mem_update_answer(before: MemCarStore, after: MemCarStore, car: CarView, r: Result<(), StoreError>) -> bool {
    &&& after.next_id() == before.next_id()
    &&& first_index(before.cars(), car.id) < 0 ==> r is Err && r->Err_0@ == StoreErrorView::NotFound(
        not_found_message(car.id),
    ) && after.cars() == before.cars()
    &&& first_index(before.cars(), car.id) >= 0 ==> r is Ok && after.cars() == before.cars().update(
        first_index(before.cars(), car.id),
        car,
    )
}

/// The in-memory store's answer to a removal of `id`.
pub open spec fn mem_delete_answer(before: MemCarStore, after: MemCarStore, id: u32, r: Result<(), StoreError>) -> bool {
    &&& after.next_id() == before.next_id()
    &&& first_index(before.cars(), id) < 0 ==> r is Err && r->Err_0@ == StoreErrorView::NotFound(
        not_found_message(id),
    ) && after.cars() == before.cars()
    &&& first_index(before.cars(), id) >= 0 ==> r is Ok && after.cars() == before.cars().remove(
        first_index(before.cars(), id),
    )
}

impl CarStore for MemCarStore {
    fn create_car(&mut self, brand: String, model: String, year: u16) -> Result<u32, StoreError> {
        Ok(MemCarStore::create_car(self, brand, model, year))
    }

    fn update_car(&mut self, car: Car) -> Result<(), StoreError> {
        MemCarStore::update_car(self, car)
    }

    fn get_car(&self, id: u32) -> Result<Car, StoreError> {
        MemCarStore::get_car(self, id)
    }

    fn get_all_cars(&self) -> Result<Vec<Car>, StoreError> {
        Ok(MemCarStore::get_all_cars(self))
    }

    fn delete_car(&mut self, id: u32) -> Result<(), StoreError> {
        MemCarStore::delete_car(self, id)
    }

    fn delete_all_cars(&mut self) -> Result<(), StoreError> {
        MemCarStore::delete_all_cars(self);
        Ok(())
    }
}

/// A store operation a handler asks for.
pub enum StoreOp {
    Create { brand: String, model: String, year: u16 },
    Update(Car),
    Get(u32),
    GetAll,
    Delete(u32),
    DeleteAll,
}

pub enum StoreOpView {
    Create(Seq<char>, Seq<char>, u16),
    Update(CarView),
    Get(u32),
    GetAll,
    Delete(u32),
    DeleteAll,
}

impl View for StoreOp {
    type V = StoreOpView;

    open spec fn view(&self) -> StoreOpView {
        match self {
            StoreOp::Create { brand, model, year } => StoreOpView::Create(brand@, model@, *year),
            StoreOp::Update(c) => StoreOpView::Update(c@),
            StoreOp::Get(id) => StoreOpView::Get(*id),
            StoreOp::GetAll => StoreOpView::GetAll,
            StoreOp::Delete(id) => StoreOpView::Delete(*id),
            StoreOp::DeleteAll => StoreOpView::DeleteAll,
        }
    }
}

/// What a store answered to an operation.
pub enum StoreAnswer {
    Created(Result<u32, StoreError>),
    Changed(Result<(), StoreError>),
    One(Result<Car, StoreError>),
    All(Result<Vec<Car>, StoreError>),
}

pub enum StoreAnswerView {
    Created(Result<u32, StoreErrorView>),
    Changed(Result<(), StoreErrorView>),
    One(Result<CarView, StoreErrorView>),
    All(Result<Seq<CarView>, StoreErrorView>),
}

impl View for StoreAnswer {
    type V = StoreAnswerView;

    open spec fn view(&self) -> StoreAnswerView {
        match self {
            StoreAnswer::Created(Ok(id)) => StoreAnswerView::Created(Ok(*id)),
            StoreAnswer::Created(Err(e)) => StoreAnswerView::Created(Err(e@)),
            StoreAnswer::Changed(Ok(_)) => StoreAnswerView::Changed(Ok(())),
            StoreAnswer::Changed(Err(e)) => StoreAnswerView::Changed(Err(e@)),
            StoreAnswer::One(Ok(c)) => StoreAnswerView::One(Ok(c@)),
            StoreAnswer::One(Err(e)) => StoreAnswerView::One(Err(e@)),
            StoreAnswer::All(Ok(cs)) => StoreAnswerView::All(Ok(cars_view(cs@))),
            StoreAnswer::All(Err(e)) => StoreAnswerView::All(Err(e@)),
        }
    }
}

/// Whether `a` is an answer of the kind `op` asks for.
pub open spec fn answers(op: StoreOpView, a: StoreAnswerView) -> bool {
    match op {
        StoreOpView::Create(..) => a is Created,
        StoreOpView::Update(_) | StoreOpView::Delete(_) | StoreOpView::DeleteAll => a is Changed,
        StoreOpView::Get(_) => a is One,
        StoreOpView::GetAll => a is All,
    }
}

/// Runs `op` on any store: the matching call, with the operation's
/// arguments.
pub fn apply_op<S: CarStore>(store: &mut S, op: StoreOp) -> (r: StoreAnswer)
    ensures
        answers(op@, r@),
{
    match op {
        StoreOp::Create { brand, model, year } => StoreAnswer::Created(store.create_car(brand, model, year)),
        StoreOp::Update(car) => StoreAnswer::Changed(store.update_car(car)),
        StoreOp::Get(id) => StoreAnswer::One(store.get_car(id)),
        StoreOp::GetAll => StoreAnswer::All(store.get_all_cars()),
        StoreOp::Delete(id) => StoreAnswer::Changed(store.delete_car(id)),
        StoreOp::DeleteAll => StoreAnswer::Changed(store.delete_all_cars()),
    }
}

/// What the in-memory store answers to `op`, and its state afterwards.
pub open spec fn mem_op_answer(before: MemCarStore, after: MemCarStore, op: StoreOpView, a: StoreAnswer) -> bool {
    match op {
        StoreOpView::Create(brand, model, year) => {
            &&& a == StoreAnswer::Created(Ok(before.next_id()))
            &&& after.cars() == before.cars().push(CarView { id: before.next_id(), brand, model, year })
            &&& after.next_id() == next_after(before.next_id())
        },
        StoreOpView::Update(car) => a is Changed && mem_update_answer(before, after, car, a->Changed_0),
        StoreOpView::Get(id) => a is One && get_car_answer(before.cars(), id, a->One_0) && after == before,
        StoreOpView::GetAll => {
            &&& a is All
            &&& a->All_0 is Ok
            &&& cars_view(a->All_0->Ok_0@) == before.cars()
            &&& after == before
        },
        StoreOpView::Delete(id) => a is Changed && mem_delete_answer(before, after, id, a->Changed_0),
        StoreOpView::DeleteAll => {
            &&& a is Changed
            &&& a->Changed_0 is Ok
            &&& after.cars() == Seq::<CarView>::empty()
            &&& after.next_id() == 1
        },
    }
}

/// Every operation keeps the store's ids unique and below the next id, as
/// long as a creation does not exhaust the ids (the counter wraps there).
pub proof fn lemma_op_keeps_wf(before: MemCarStore, after: MemCarStore, op: StoreOpView, a: StoreAnswer)
    requires
        before.wf(),
        mem_op_answer(before, after, op, a),
        op is Create ==> before.next_id() < u32::MAX,
    ensures
        after.wf(),
{
    match op {
        StoreOpView::Update(car) => {
            lemma_first_index_range(before.cars(), car.id);
        },
        StoreOpView::Delete(id) => {
            lemma_first_index_range(before.cars(), id);
            let k = first_index(before.cars(), id);
            if k >= 0 {
                let c = after.cars();
                assert forall|i: int| 0 <= i < c.len() implies #[trigger] c[i].id < after.next_id() by {
                    if i >= k {
                        assert(c[i] == before.cars()[i + 1]);
                    }
                }
                assert forall|i: int, j: int| 0 <= i < j < c.len() implies #[trigger] c[i].id != #[trigger] c[j].id by {
                    let bi = if i < k { i } else { i + 1 };
                    let bj = if j < k { j } else { j + 1 };
                    assert(c[i] == before.cars()[bi]);
                    assert(c[j] == before.cars()[bj]);
                }
            }
        },
        StoreOpView::Create(..) => {
            let c = after.cars();
            assert forall|i: int, j: int| 0 <= i < j < c.len() implies #[trigger] c[i].id != #[trigger] c[j].id by {
                if j == c.len() - 1 {
                    assert(c[i] == before.cars()[i]);
                }
            }
        },
        _ => {},
    }
}

impl MemCarStore {
    /// Runs `op` on this store.
    pub fn apply(&mut self, op: StoreOp) -> (r: StoreAnswer)
        ensures
            mem_op_answer(*old(self), *final(self), op@, r),
            old(self).wf() && (op@ is Create ==> old(self).next_id() < u32::MAX) ==> final(self).wf(),
    {
        let ghost before = *self;
        let ghost op_view = op@;
        let r = self.apply_op_here(op);
        proof {
            if before.wf() && (op_view is Create ==> before.next_id() < u32::MAX) {
                lemma_op_keeps_wf(before, *self, op_view, r);
            }
        }
        r
    }

    fn apply_op_here(&mut self, op: StoreOp) -> (r: StoreAnswer)
        ensures
            mem_op_answer(*old(self), *final(self), op@, r),
    {
        match op {
            StoreOp::Create { brand, model, year } => StoreAnswer::Created(Ok(self.create_car(brand, model, year))),
            StoreOp::Update(car) => StoreAnswer::Changed(self.update_car(car)),
            StoreOp::Get(id) => StoreAnswer::One(self.get_car(id)),
            StoreOp::GetAll => StoreAnswer::All(Ok(self.get_all_cars())),
            StoreOp::Delete(id) => StoreAnswer::Changed(self.delete_car(id)),
            StoreOp::DeleteAll => {
                self.delete_all_cars();
                StoreAnswer::Changed(Ok(()))
            },
        }
    }
}

} // verus!
