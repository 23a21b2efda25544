use streamer_tools::events::{ButtonAction, ButtonFunction, EventTypes, Events};

#[test]
fn button_from_name() {
    assert_eq!(ButtonFunction::from("M5".to_string()), ButtonFunction::M5);
    assert_eq!(ButtonFunction::from("M1".to_string()), ButtonFunction::M1);
    assert_eq!(ButtonFunction::from("Play".to_string()), ButtonFunction::Play);
    assert_eq!(ButtonFunction::from("P1".to_string()), ButtonFunction::P1);
    assert_eq!(ButtonFunction::from("P5".to_string()), ButtonFunction::P5);
    assert_eq!(ButtonFunction::from("Stop".to_string()), ButtonFunction::Stop);
    assert_eq!(ButtonFunction::from("play".to_string()), ButtonFunction::Stop);
}

#[test]
fn button_actions() {
    assert_eq!(ButtonFunction::Stop.action(), ButtonAction::SetActive(false));
    assert_eq!(ButtonFunction::Play.action(), ButtonAction::SetActive(true));
    assert_eq!(ButtonFunction::M5.action(), ButtonAction::Unassigned);
}

#[test]
fn callbacks_in_order_and_removed() {
    let mut bus: Events<u32> = Events::new();
    assert!(bus.callbacks_for(EventTypes::Update).is_empty());
    assert!(bus.add_callback(EventTypes::Update, 1).is_ok());
    assert!(bus.add_callback(EventTypes::Update, 2).is_ok());
    assert!(bus.add_callback(EventTypes::Update, 1).is_ok());
    assert_eq!(bus.callbacks_for(EventTypes::Update), vec![1, 2, 1]);
    bus.remove_callback(EventTypes::Update, 1);
    assert_eq!(bus.callbacks_for(EventTypes::Update), vec![2]);
    bus.remove_callback(EventTypes::Update, 7);
    assert_eq!(bus.callbacks_for(EventTypes::Update), vec![2]);
}

use std::cell::Cell;
use std::collections::HashMap;
use std::rc::Rc;

fn cb_a(_: Option<HashMap<String, String>>) {}
fn cb_b(_: Option<HashMap<String, String>>) {}

type Cb = fn(Option<HashMap<String, String>>);

#[test]
fn function_callbacks() {
    let mut bus: Events<Cb> = Events::default();
    bus.add_callback(EventTypes::Update, cb_a as Cb).unwrap();
    bus.add_callback(EventTypes::Update, cb_b as Cb).unwrap();
    assert_eq!(bus.callbacks_for(EventTypes::Update).len(), 2);
    let mut data = HashMap::new();
    data.insert("k".to_string(), "v".to_string());
    assert_eq!(bus.trigger_event(EventTypes::Update, Some(data)), 2);
    assert_eq!(bus.trigger_event(EventTypes::Update, None), 2);
}

fn add_one(c: Rc<Cell<u32>>) {
    c.set(c.get() + 1);
}

fn times_ten(c: Rc<Cell<u32>>) {
    c.set(c.get() * 10);
}

type Counter = fn(Rc<Cell<u32>>);

#[test]
fn trigger_runs_callbacks_in_order() {
    let mut bus: Events<Counter> = Events::new();
    bus.add_callback(EventTypes::Update, add_one as Counter).unwrap();
    bus.add_callback(EventTypes::Update, times_ten as Counter).unwrap();
    bus.add_callback(EventTypes::Update, add_one as Counter).unwrap();
    let seen = Rc::new(Cell::new(1));
    assert_eq!(bus.trigger_event(EventTypes::Update, seen.clone()), 3);
    assert_eq!(seen.get(), 21);
}

#[test]
fn add_then_remove_restores_list() {
    let mut bus: Events<u32> = Events::new();
    bus.add_callback(EventTypes::Update, 4).unwrap();
    bus.add_callback(EventTypes::Update, 5).unwrap();
    bus.add_callback(EventTypes::Update, 9).unwrap();
    bus.remove_callback(EventTypes::Update, 9);
    assert_eq!(bus.callbacks_for(EventTypes::Update), vec![4, 5]);
}
