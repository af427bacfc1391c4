use clinic_records::appointments::{
    cancel_appointment, list_appointments, schedule_appointment, update_appointment,
    view_appointment, AppState, Appointment, AppointmentPatch, AppointmentRequest,
};
use clinic_records::reply::Status;

fn request(name: &str) -> AppointmentRequest {
    AppointmentRequest {
        name: name.to_string(),
        email: format!("{}@example.org", name),
        phone: "555-0100".to_string(),
        date: "2024-05-01".to_string(),
        time: "09:30".to_string(),
        reason: "checkup".to_string(),
    }
}

fn no_change() -> AppointmentPatch {
    AppointmentPatch { name: None, email: None, phone: None, date: None, time: None, reason: None }
}

#[test]
fn first_appointment_gets_id_zero() {
    let mut state = AppState::new();
    assert_eq!(state.next_id(), 0);
    let reply = schedule_appointment(request("ann"), &mut state);
    assert_eq!(
        reply,
        (Status::Created, "Appointment scheduled successfully with ID 0".to_string())
    );
    assert_eq!(state.next_id(), 1);
}

#[test]
fn schedule_stores_every_field_of_the_request() {
    let mut state = AppState::new();
    schedule_appointment(request("ann"), &mut state);
    assert_eq!(
        view_appointment(0, &state),
        Some(Appointment {
            id: 0,
            name: "ann".to_string(),
            email: "ann@example.org".to_string(),
            phone: "555-0100".to_string(),
            date: "2024-05-01".to_string(),
            time: "09:30".to_string(),
            reason: "checkup".to_string(),
        })
    );
}

#[test]
fn identifiers_count_up_in_call_order() {
    let mut state = AppState::new();
    for n in 0u32..12 {
        let reply = schedule_appointment(request("p"), &mut state);
        assert_eq!(reply.0, Status::Created);
        assert_eq!(reply.1, format!("Appointment scheduled successfully with ID {}", n));
        assert_eq!(view_appointment(n, &state).unwrap().id, n);
    }
    assert_eq!(state.next_id(), 12);
    assert_eq!(list_appointments(&state).len(), 12);
}

#[test]
fn cancelled_identifier_is_not_handed_out_again() {
    let mut state = AppState::new();
    schedule_appointment(request("a"), &mut state);
    schedule_appointment(request("b"), &mut state);
    assert_eq!(cancel_appointment(1, &mut state).0, Status::Success);
    assert_eq!(cancel_appointment(0, &mut state).0, Status::Success);
    assert!(list_appointments(&state).is_empty());
    let reply = schedule_appointment(request("c"), &mut state);
    assert_eq!(reply.1, "Appointment scheduled successfully with ID 2");
    assert!(view_appointment(0, &state).is_none());
    assert!(view_appointment(1, &state).is_none());
    assert_eq!(view_appointment(2, &state).unwrap().name, "c");
}

#[test]
fn cancel_removes_exactly_one() {
    let mut state = AppState::new();
    schedule_appointment(request("a"), &mut state);
    schedule_appointment(request("b"), &mut state);
    schedule_appointment(request("c"), &mut state);
    let reply = cancel_appointment(1, &mut state);
    assert_eq!(
        reply,
        (Status::Success, "Appointment with ID 1 canceled successfully.".to_string())
    );
    let mut names: Vec<String> = list_appointments(&state).into_iter().map(|a| a.name).collect();
    names.sort();
    assert_eq!(names, vec!["a".to_string(), "c".to_string()]);
    assert_eq!(state.next_id(), 3);
}

#[test]
fn cancel_of_an_absent_id_is_not_found() {
    let mut state = AppState::new();
    let reply = cancel_appointment(3, &mut state);
    assert_eq!(reply, (Status::NotFound, "No appointment found with ID 3.".to_string()));
    schedule_appointment(request("a"), &mut state);
    cancel_appointment(0, &mut state);
    let again = cancel_appointment(0, &mut state);
    assert_eq!(again, (Status::NotFound, "No appointment found with ID 0.".to_string()));
    assert_eq!(state.next_id(), 1);
}

#[test]
fn view_of_an_absent_id_is_none() {
    let mut state = AppState::new();
    assert!(view_appointment(0, &state).is_none());
    schedule_appointment(request("a"), &mut state);
    assert!(view_appointment(1, &state).is_none());
    assert!(view_appointment(u32::MAX, &state).is_none());
}

#[test]
fn update_overwrites_only_the_named_fields() {
    let mut state = AppState::new();
    schedule_appointment(request("ann"), &mut state);
    schedule_appointment(request("bob"), &mut state);
    let patch = AppointmentPatch {
        date: Some("2024-06-02".to_string()),
        reason: Some(String::new()),
        ..no_change()
    };
    let reply = update_appointment(0, patch, &mut state);
    assert_eq!(
        reply,
        (Status::Success, "Appointment with ID 0 updated successfully.".to_string())
    );
    assert_eq!(
        view_appointment(0, &state),
        Some(Appointment {
            id: 0,
            name: "ann".to_string(),
            email: "ann@example.org".to_string(),
            phone: "555-0100".to_string(),
            date: "2024-06-02".to_string(),
            time: "09:30".to_string(),
            reason: String::new(),
        })
    );
    assert_eq!(view_appointment(1, &state).unwrap().date, "2024-05-01");
    assert_eq!(state.next_id(), 2);
}

#[test]
fn update_with_every_field() {
    let mut state = AppState::new();
    schedule_appointment(request("ann"), &mut state);
    let patch = AppointmentPatch {
        name: Some("n".to_string()),
        email: Some("e".to_string()),
        phone: Some("p".to_string()),
        date: Some("d".to_string()),
        time: Some("t".to_string()),
        reason: Some("r".to_string()),
    };
    update_appointment(0, patch, &mut state);
    let a = view_appointment(0, &state).unwrap();
    assert_eq!(
        (a.id, a.name, a.email, a.phone, a.date, a.time, a.reason),
        (
            0,
            "n".to_string(),
            "e".to_string(),
            "p".to_string(),
            "d".to_string(),
            "t".to_string(),
            "r".to_string()
        )
    );
}

#[test]
fn update_without_fields_changes_nothing() {
    let mut state = AppState::new();
    schedule_appointment(request("ann"), &mut state);
    let before = view_appointment(0, &state);
    assert_eq!(update_appointment(0, no_change(), &mut state).0, Status::Success);
    assert_eq!(view_appointment(0, &state), before);
}

#[test]
fn update_of_an_absent_id_is_not_found() {
    let mut state = AppState::new();
    schedule_appointment(request("ann"), &mut state);
    let patch = AppointmentPatch { name: Some("x".to_string()), ..no_change() };
    let reply = update_appointment(5, patch, &mut state);
    assert_eq!(reply, (Status::NotFound, "No appointment found with ID 5.".to_string()));
    assert_eq!(view_appointment(0, &state).unwrap().name, "ann");
    assert_eq!(list_appointments(&state).len(), 1);
}

#[test]
fn list_appointments_matches_lookups() {
    let mut state = AppState::new();
    for name in ["a", "b", "c", "d"] {
        schedule_appointment(request(name), &mut state);
    }
    cancel_appointment(2, &mut state);
    update_appointment(
        3,
        AppointmentPatch { time: Some("17:00".to_string()), ..no_change() },
        &mut state,
    );
    let mut listed = list_appointments(&state);
    listed.sort_by_key(|a| a.id);
    let ids: Vec<u32> = listed.iter().map(|a| a.id).collect();
    assert_eq!(ids, vec![0, 1, 3]);
    for a in &listed {
        assert_eq!(view_appointment(a.id, &state).as_ref(), Some(a));
    }
    assert_eq!(listed[2].time, "17:00");
}

#[test]
fn listed_appointments_are_copies() {
    let mut state = AppState::new();
    schedule_appointment(request("ann"), &mut state);
    let mut listed = list_appointments(&state);
    listed[0].name = "changed".to_string();
    assert_eq!(view_appointment(0, &state).unwrap().name, "ann");
}
