use mingling::resource::{Description, GlobalResource, Metadata, ResourceMarker};
use std::sync::Arc;

#[test]
fn global_resource_new_and_deref() {
    let res = GlobalResource::new(42i32);
    assert_eq!(*res, 42);
}

#[test]
fn global_resource_from_arc() {
    let arc = Arc::new(42i32);
    let res = GlobalResource::from(arc);
    assert_eq!(*res, 42);
}

#[test]
fn global_resource_as_ref() {
    let res = GlobalResource::new(42i32);
    assert_eq!(res.get(), &42);
}

#[test]
fn resource_marker_i32_res_clone() {
    let val = 42i32;
    let cloned = val.res_clone();
    assert_eq!(cloned, 42);
}

#[test]
fn resource_marker_i32_res_default() {
    assert_eq!(<i32 as ResourceMarker>::res_default(), 0i32);
}

#[test]
fn resource_marker_string_res_clone() {
    let val = "hello".to_string();
    let cloned = val.res_clone();
    assert_eq!(cloned, "hello");
}

#[test]
fn resource_marker_string_res_default() {
    assert_eq!(<String as ResourceMarker>::res_default(), "");
}

#[test]
fn resource_marker_vec_res_clone() {
    let val = vec![1, 2, 3];
    let cloned = val.res_clone();
    assert_eq!(cloned, vec![1, 2, 3]);
}

#[test]
fn resource_marker_vec_res_default() {
    let empty: Vec<i32> = vec![];
    assert_eq!(<Vec<i32> as ResourceMarker>::res_default(), empty);
}

#[test]
fn description_keeps_its_text() {
    let d = Description::new("Update mling");
    assert_eq!(d.to_string(), "Update mling");
    assert_eq!(&*d, "Update mling");
    let s: String = Description::from("x".to_string()).into();
    assert_eq!(s, "x");
}

struct EntryGreet;

struct MyInformation {
    name: String,
}

impl Metadata<MyInformation> for EntryGreet {
    fn init_metadata() -> MyInformation {
        MyInformation { name: "greet".to_string() }
    }
}

#[test]
fn metadata_is_attached_to_an_entry() {
    assert_eq!(<EntryGreet as Metadata<MyInformation>>::init_metadata().name, "greet");
}
