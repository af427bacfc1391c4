//! Appointments, under identifiers that the service assigns.

use crate::patch::{optional_text, overlay, set_if_present};
use crate::reply::Status;
use crate::store::{is_listing, lookup, updated, Record, RecordStore};
use crate::text::{decimal, decimal_string, join3, joined};
use vstd::prelude::*;
use vstd::string::*;

verus! {

/// An appointment on the books.
#[derive(Debug, PartialEq, Eq)]
pub struct Appointment {
    pub id: u32,
    pub name: String,
    pub email: String,
    pub phone: String,
    pub date: String,
    pub time: String,
    pub reason: String,
}

/// What an `Appointment` stands for.
pub struct AppointmentView {
    pub id: u32,
    pub name: Seq<char>,
    pub email: Seq<char>,
    pub phone: Seq<char>,
    pub date: Seq<char>,
    pub time: Seq<char>,
    pub reason: Seq<char>,
}

impl View for Appointment {
    type V = AppointmentView;

    open spec fn view(&self) -> AppointmentView {
        AppointmentView {
            id: self.id,
            name: self.name@,
            email: self.email@,
            phone: self.phone@,
            date: self.date@,
            time: self.time@,
            reason: self.reason@,
        }
    }
}

impl Clone for Appointment {
    fn clone(&self) -> (copy: Self)
        ensures
            copy@ == self@,
    {
        Appointment {
            id: self.id,
            name: self.name.clone(),
            email: self.email.clone(),
            phone: self.phone.clone(),
            date: self.date.clone(),
            time: self.time.clone(),
            reason: self.reason.clone(),
        }
    }
}

/// What a caller supplies to schedule an appointment: all but the identifier.
#[derive(Debug, PartialEq, Eq)]
pub struct AppointmentRequest {
    pub name: String,
    pub email: String,
    pub phone: String,
    pub date: String,
    pub time: String,
    pub reason: String,
}

/// What an `AppointmentRequest` stands for.
pub struct AppointmentRequestView {
    pub name: Seq<char>,
    pub email: Seq<char>,
    pub phone: Seq<char>,
    pub date: Seq<char>,
    pub time: Seq<char>,
    pub reason: Seq<char>,
}

impl View for AppointmentRequest {
    type V = AppointmentRequestView;

    open spec fn view(&self) -> AppointmentRequestView {
        AppointmentRequestView {
            name: self.name@,
            email: self.email@,
            phone: self.phone@,
            date: self.date@,
            time: self.time@,
            reason: self.reason@,
        }
    }
}

/// A sparse change to an appointment: a field that is `None` stays as it is.
#[derive(Debug, PartialEq, Eq)]
pub struct AppointmentPatch {
    pub name: Option<String>,
    pub email: Option<String>,
    pub phone: Option<String>,
    pub date: Option<String>,
    pub time: Option<String>,
    pub reason: Option<String>,
}

/// What an `AppointmentPatch` stands for.
pub struct AppointmentPatchView {
    pub name: Option<Seq<char>>,
    pub email: Option<Seq<char>>,
    pub phone: Option<Seq<char>>,
    pub date: Option<Seq<char>>,
    pub time: Option<Seq<char>>,
    pub reason: Option<Seq<char>>,
}

impl View for AppointmentPatch {
    type V = AppointmentPatchView;

    open spec fn view(&self) -> AppointmentPatchView {
        AppointmentPatchView {
            name: optional_text(self.name),
            email: optional_text(self.email),
            phone: optional_text(self.phone),
            date: optional_text(self.date),
            time: optional_text(self.time),
            reason: optional_text(self.reason),
        }
    }
}

impl Record for Appointment {
    type Patch = AppointmentPatch;

    open spec fn key(v: AppointmentView) -> u32 {
        v.id
    }

    open spec fn patched(v: AppointmentView, p: AppointmentPatchView) -> AppointmentView {
        AppointmentView {
            id: v.id,
            name: overlay(v.name, p.name),
            email: overlay(v.email, p.email),
            phone: overlay(v.phone, p.phone),
            date: overlay(v.date, p.date),
            time: overlay(v.time, p.time),
            reason: overlay(v.reason, p.reason),
        }
    }

    proof fn patch_keeps_key(v: AppointmentView, p: AppointmentPatchView) {
    }

    fn id(&self) -> (k: u32) {
        self.id
    }

    fn duplicate(&self) -> (copy: Self) {
        self.clone()
    }

    fn apply(&mut self, patch: AppointmentPatch) {
        set_if_present(&mut self.name, patch.name);
        set_if_present(&mut self.email, patch.email);
        set_if_present(&mut self.phone, patch.phone);
        set_if_present(&mut self.date, patch.date);
        set_if_present(&mut self.time, patch.time);
        set_if_present(&mut self.reason, patch.reason);
    }
}

/// The appointments on the books, and the identifier that the next one gets.
pub struct Book {
    pub appointments: Map<u32, AppointmentView>,
    pub next_id: u32,
}

/// The appointment that a request becomes under the identifier `id`.
pub open spec fn appointment_of(id: u32, request: AppointmentRequestView) -> AppointmentView {
    AppointmentView {
        id,
        name: request.name,
        email: request.email,
        phone: request.phone,
        date: request.date,
        time: request.time,
        reason: request.reason,
    }
}

/// The book after `request` was scheduled: the appointment stands under the
/// identifier that was next, and the one after it is next.
pub open spec fn scheduled(book: Book, request: AppointmentRequestView) -> Book
    recommends
        book.next_id < u32::MAX,
{
    Book {
        appointments: book.appointments.insert(book.next_id, appointment_of(book.next_id, request)),
        next_id: (book.next_id + 1) as u32,
    }
}

/// The book after a request to cancel appointment `id`. Identifiers are not
/// handed out again: what is next stays.
pub open spec fn cancelled(book: Book, id: u32) -> Book {
    Book { appointments: book.appointments.remove(id), next_id: book.next_id }
}

/// The book after a request to change appointment `id`.
pub open spec fn amended(book: Book, id: u32, patch: AppointmentPatchView) -> Book {
    Book {
        appointments: updated::<Appointment>(book.appointments, id, patch),
        next_id: book.next_id,
    }
}

/// Every appointment stands under its own identifier, and that identifier
/// is below `next_id`.
pub open spec fn issued_below(appointments: Map<u32, AppointmentView>, next_id: u32) -> bool {
    forall|id: u32| #[trigger]
        appointments.contains_key(id) ==> appointments[id].id == id && id < next_id
}

/// Every appointment stands under its own identifier, and that identifier
/// was handed out before: it is below the one that is next.
pub open spec fn orderly(book: Book) -> bool {
    issued_below(book.appointments, book.next_id)
}

/// What the service says when it has scheduled an appointment under `id`.
pub open spec fn scheduled_message(id: u32) -> Seq<char> {
    "Appointment scheduled successfully with ID "@ + decimal(id as nat)
}

/// What the service says when it has cancelled appointment `id`.
pub open spec fn cancelled_message(id: u32) -> Seq<char> {
    joined("Appointment with ID "@, decimal(id as nat), " canceled successfully."@)
}

/// What the service says when it has changed appointment `id`.
pub open spec fn amended_message(id: u32) -> Seq<char> {
    joined("Appointment with ID "@, decimal(id as nat), " updated successfully."@)
}

/// What the service says when there is no appointment `id`.
pub open spec fn no_appointment_message(id: u32) -> Seq<char> {
    joined("No appointment found with ID "@, decimal(id as nat), "."@)
}

/// The appointments that the service holds, and its identifier counter.
pub struct AppState {
    appointments: RecordStore<Appointment>,
    next_id: u32,
}

impl View for AppState {
    type V = Book;

    closed spec fn view(&self) -> Book {
        Book { appointments: self.appointments@, next_id: self.next_id }
    }
}

impl AppState {
    #[verifier::type_invariant]
    spec fn sound(self) -> bool {
        orderly(self@)
    }

    /// A state without appointments, whose first identifier is 0.
    pub fn new() -> (state: Self)
        ensures
            state@ == (Book { appointments: Map::<u32, AppointmentView>::empty(), next_id: 0 }),
    {
        AppState { appointments: RecordStore::new(), next_id: 0 }
    }

    /// The identifier that the next appointment gets. Scheduling needs it
    /// to be below `u32::MAX`, so that the one after it can be counted.
    pub fn next_id(&self) -> (id: u32)
        ensures
            id == self@.next_id,
    {
        self.next_id
    }
}

impl Default for AppState {
    fn default() -> (state: Self)
        ensures
            state@ == (Book { appointments: Map::<u32, AppointmentView>::empty(), next_id: 0 }),
    {
        AppState::new()
    }
}

/// Schedules an appointment under the next identifier and names that
/// identifier in the message.
pub fn schedule_appointment(appointment_input: AppointmentRequest, state: &mut AppState) -> (reply:
    (Status, String))
    requires
        old(state)@.next_id < u32::MAX,
    ensures
        final(state)@ == scheduled(old(state)@, appointment_input@),
        orderly(final(state)@),
        reply.0 == Status::Created,
        reply.1@ == scheduled_message(old(state)@.next_id),
{
    proof {
        use_type_invariant(&*state);
    }
    let id = state.next_id;
    let appointment = Appointment {
        id,
        name: appointment_input.name,
        email: appointment_input.email,
        phone: appointment_input.phone,
        date: appointment_input.date,
        time: appointment_input.time,
        reason: appointment_input.reason,
    };
    // The store is taken out while it changes and put back after, so that
    // the state is sound at every point in between.
    let mut appointments = RecordStore::new();
    std::mem::swap(&mut appointments, &mut state.appointments);
    let _ = appointments.insert(appointment);
    let next_id: u32 = id + 1;
    *state = AppState { appointments, next_id };
    let mut message = String::from_str("Appointment scheduled successfully with ID ");
    message.append(decimal_string(id).as_str());
    (Status::Created, message)
}

/// A copy of appointment `id`, if there is one.
pub fn view_appointment(id: u32, state: &AppState) -> (found: Option<Appointment>)
    ensures
        orderly(state@),
        match found {
            Some(appointment) => lookup::<Appointment>(state@.appointments, id) == Some(
                appointment@,
            ),
            None => lookup::<Appointment>(state@.appointments, id) is None,
        },
{
    proof {
        use_type_invariant(state);
    }
    state.appointments.get(id)
}

/// A copy of every appointment, in no particular order.
pub fn list_appointments(state: &AppState) -> (appointments: Vec<Appointment>)
    ensures
        orderly(state@),
        is_listing::<Appointment>(
            state@.appointments,
            appointments@.map_values(|a: Appointment| a@),
        ),
{
    proof {
        use_type_invariant(state);
    }
    state.appointments.list()
}

/// Takes appointment `id` off the books.
pub fn cancel_appointment(id: u32, state: &mut AppState) -> (reply: (Status, String))
    ensures
        final(state)@ == cancelled(old(state)@, id),
        orderly(final(state)@),
        old(state)@.appointments.contains_key(id) ==> reply.0 == Status::Success && reply.1@
            == cancelled_message(id),
        !old(state)@.appointments.contains_key(id) ==> reply.0 == Status::NotFound && reply.1@
            == no_appointment_message(id),
{
    proof {
        use_type_invariant(&*state);
    }
    let mut appointments = RecordStore::new();
    std::mem::swap(&mut appointments, &mut state.appointments);
    let outcome = appointments.remove(id);
    state.appointments = appointments;
    match outcome {
        Ok(_) => (
            Status::Success,
            join3("Appointment with ID ", decimal_string(id).as_str(), " canceled successfully."),
        ),
        Err(_) => (
            Status::NotFound,
            join3("No appointment found with ID ", decimal_string(id).as_str(), "."),
        ),
    }
}

/// Overwrites the fields of appointment `id` that `patch` names.
pub fn update_appointment(id: u32, patch: AppointmentPatch, state: &mut AppState) -> (reply: (
    Status,
    String,
))
    ensures
        final(state)@ == amended(old(state)@, id, patch@),
        orderly(final(state)@),
        old(state)@.appointments.contains_key(id) ==> reply.0 == Status::Success && reply.1@
            == amended_message(id),
        !old(state)@.appointments.contains_key(id) ==> reply.0 == Status::NotFound && reply.1@
            == no_appointment_message(id),
{
    proof {
        use_type_invariant(&*state);
    }
    let mut appointments = RecordStore::new();
    std::mem::swap(&mut appointments, &mut state.appointments);
    let outcome = appointments.update(id, patch);
    state.appointments = appointments;
    match outcome {
        Ok(_) => (
            Status::Success,
            join3("Appointment with ID ", decimal_string(id).as_str(), " updated successfully."),
        ),
        Err(_) => (
            Status::NotFound,
            join3("No appointment found with ID ", decimal_string(id).as_str(), "."),
        ),
    }
}

/// A request that changes the book.
pub enum BookRequest {
    Schedule(AppointmentRequestView),
    Cancel(u32),
    Amend(u32, AppointmentPatchView),
}

/// The book after one request.
pub open spec fn handled(book: Book, request: BookRequest) -> Book {
    match request {
        BookRequest::Schedule(r) => scheduled(book, r),
        BookRequest::Cancel(id) => cancelled(book, id),
        BookRequest::Amend(id, patch) => amended(book, id, patch),
    }
}

/// The book of a service that started empty and took `requests` in order.
pub open spec fn served(requests: Seq<BookRequest>) -> Book
    decreases requests.len(),
{
    if requests.len() == 0 {
        Book { appointments: Map::empty(), next_id: 0 }
    } else {
        handled(served(requests.drop_last()), requests.last())
    }
}

/// How many of `requests` schedule an appointment.
pub open spec fn schedules(requests: Seq<BookRequest>) -> nat
    decreases requests.len(),
{
    if requests.len() == 0 {
        0
    } else if requests.last() is Schedule {
        schedules(requests.drop_last()) + 1
    } else {
        schedules(requests.drop_last())
    }
}

/// The identifier that the request at position `i` is given, where it
/// schedules an appointment: the one that is next when the request comes.
pub open spec fn assigned(requests: Seq<BookRequest>, i: int) -> u32 {
    served(requests.take(i)).next_id
}

/// No request breaks the order of the book, and none lowers the identifier
/// that is next.
pub proof fn lemma_request_keeps_order(book: Book, request: BookRequest)
    requires
        orderly(book),
        request is Schedule ==> book.next_id < u32::MAX,
    ensures
        orderly(handled(book, request)),
        handled(book, request).next_id >= book.next_id,
{
}

/// A longer run of requests schedules at least as much as any of its prefixes.
pub proof fn lemma_schedules_grow(requests: Seq<BookRequest>, i: int)
    requires
        0 <= i <= requests.len(),
    ensures
        schedules(requests.take(i)) <= schedules(requests),
        i < requests.len() && requests[i] is Schedule ==> schedules(requests.take(i)) < schedules(
            requests,
        ),
    decreases requests.len(),
{
    if i == requests.len() {
        assert(requests.take(i) =~= requests);
    } else {
        let earlier = requests.drop_last();
        assert(earlier.take(i) =~= requests.take(i));
        lemma_schedules_grow(earlier, i);
        if i == requests.len() - 1 {
            assert(earlier.take(i) =~= earlier);
        }
    }
}

/// The identifier that is next is the number of appointments scheduled so
/// far, cancelled or not; and the book is in order.
pub proof fn lemma_next_id_counts_schedules(requests: Seq<BookRequest>)
    requires
        schedules(requests) <= u32::MAX,
    ensures
        served(requests).next_id == schedules(requests),
        orderly(served(requests)),
    decreases requests.len(),
{
    if requests.len() > 0 {
        lemma_next_id_counts_schedules(requests.drop_last());
        lemma_request_keeps_order(served(requests.drop_last()), requests.last());
    }
}

/// The appointments get the identifiers 0, 1, 2, ... in the order in which
/// they are scheduled: each gets the number of those scheduled before it.
pub proof fn lemma_identifiers_count_up(requests: Seq<BookRequest>, i: int)
    requires
        0 <= i < requests.len(),
        requests[i] is Schedule,
        schedules(requests) <= u32::MAX,
    ensures
        assigned(requests, i) == schedules(requests.take(i)),
        served(requests.take(i + 1)).appointments.contains_key(assigned(requests, i)),
        served(requests.take(i + 1)).next_id == assigned(requests, i) + 1,
{
    lemma_schedules_grow(requests, i);
    lemma_schedules_grow(requests, i + 1);
    lemma_next_id_counts_schedules(requests.take(i));
    lemma_next_id_counts_schedules(requests.take(i + 1));
    assert(requests.take(i + 1).drop_last() =~= requests.take(i));
    assert(requests.take(i + 1).last() == requests[i]);
}

/// No identifier is handed out twice, whatever was cancelled in between: of
/// two requests that schedule, the later one gets the greater identifier.
pub proof fn lemma_identifiers_are_not_reused(requests: Seq<BookRequest>, i: int, j: int)
    requires
        0 <= i < j < requests.len(),
        requests[i] is Schedule,
        requests[j] is Schedule,
        schedules(requests) <= u32::MAX,
    ensures
        assigned(requests, i) < assigned(requests, j),
{
    lemma_identifiers_count_up(requests, i);
    lemma_identifiers_count_up(requests, j);
    let upto = requests.take(j);
    assert(upto.take(i) =~= requests.take(i));
    assert(upto[i] == requests[i]);
    lemma_schedules_grow(upto, i);
}

/// An identifier that has not been handed out yet holds no appointment.
pub proof fn lemma_unissued_identifier_is_absent(requests: Seq<BookRequest>, id: u32)
    requires
        schedules(requests) <= u32::MAX,
        id >= schedules(requests),
    ensures
        lookup::<Appointment>(served(requests).appointments, id) is None,
{
    lemma_next_id_counts_schedules(requests);
}

/// After a cancellation the identifier is absent, and scheduling again does
/// not bring it back: the new appointment gets an identifier that was never
/// in use.
pub proof fn lemma_cancelled_identifier_stays_free(
    book: Book,
    id: u32,
    request: AppointmentRequestView,
)
    requires
        orderly(book),
        book.appointments.contains_key(id),
        book.next_id < u32::MAX,
    ensures
        !cancelled(book, id).appointments.contains_key(id),
        !scheduled(cancelled(book, id), request).appointments.contains_key(id),
        scheduled(cancelled(book, id), request).next_id == book.next_id + 1,
{
}

/// After an update, a lookup finds a record that holds the patch's value in
/// every field that the patch names and the old value in every other field.
pub proof fn lemma_update_keeps_untouched_fields(
    book: Book,
    id: u32,
    patch: AppointmentPatchView,
)
    requires
        book.appointments.contains_key(id),
    ensures
        lookup::<Appointment>(amended(book, id, patch).appointments, id) matches Some(after) && {
            let before = book.appointments[id];
            &&& after.id == before.id
            &&& after.name == overlay(before.name, patch.name)
            &&& after.email == overlay(before.email, patch.email)
            &&& after.phone == overlay(before.phone, patch.phone)
            &&& after.date == overlay(before.date, patch.date)
            &&& after.time == overlay(before.time, patch.time)
            &&& after.reason == overlay(before.reason, patch.reason)
        },
        amended(book, id, patch).next_id == book.next_id,
{
}

} // verus!
