use hc_dpki::record::{decode_record, encode_record, ReturnBundleData};
use rustc_serialize::json::Json;

fn text_of(salt: Vec<u8>, nonce: Vec<u8>, cipher: Vec<u8>) -> String {
    String::from_utf8(encode_record(&ReturnBundleData {
        salt,
        nonce,
        cipher,
    }))
    .unwrap()
}

fn numbers(list: &Json) -> Vec<u8> {
    list.as_array()
        .unwrap()
        .iter()
        .map(|n| n.as_u64().unwrap() as u8)
        .collect()
}

#[test]
fn a_record_is_written_as_three_lists() {
    assert_eq!(
        "{\"salt\":[1,2],\"nonce\":[],\"cipher\":[255,0,10]}",
        text_of(vec![1, 2], vec![], vec![255, 0, 10])
    );
    assert_eq!(
        "{\"salt\":[],\"nonce\":[],\"cipher\":[]}",
        text_of(vec![], vec![], vec![])
    );
    assert_eq!(
        "{\"salt\":[0],\"nonce\":[9,10,99,100,199,200],\"cipher\":[7]}",
        text_of(vec![0], vec![9, 10, 99, 100, 199, 200], vec![7])
    );
}

#[test]
fn a_record_is_read_back_from_its_text() {
    let all: Vec<u8> = (0..=255).collect();
    let record = ReturnBundleData {
        salt: all.clone(),
        nonce: vec![],
        cipher: all.iter().rev().cloned().collect(),
    };

    let read = decode_record(&encode_record(&record)).unwrap();

    assert_eq!(record.salt, read.salt);
    assert_eq!(record.nonce, read.nonce);
    assert_eq!(record.cipher, read.cipher);
}

#[test]
fn the_text_of_a_record_is_json_of_its_three_lists() {
    let all: Vec<u8> = (0..=255).collect();
    let text = text_of(all.clone(), vec![1; 24], vec![]);

    let json = Json::from_str(&text).unwrap();

    let object = json.as_object().unwrap();
    assert_eq!(3, object.len());
    assert_eq!(all, numbers(&object["salt"]));
    assert_eq!(vec![1; 24], numbers(&object["nonce"]));
    assert_eq!(Vec::<u8>::new(), numbers(&object["cipher"]));
}

#[test]
fn a_text_that_is_not_written_so_is_not_read() {
    for text in [
        "",
        "{}",
        "{\"salt\":[1],\"nonce\":[2],\"cipher\":[3]",
        "{\"salt\":[1],\"nonce\":[2],\"cipher\":[3]} ",
        "{\"salt\":[1],\"nonce\":[2],\"cipher\":[3]}}",
        " {\"salt\":[1],\"nonce\":[2],\"cipher\":[3]}",
        "{\"salt\":[1], \"nonce\":[2],\"cipher\":[3]}",
        "{\"salt\":[1 ],\"nonce\":[2],\"cipher\":[3]}",
        "{\"salt\":[1,],\"nonce\":[2],\"cipher\":[3]}",
        "{\"salt\":[,1],\"nonce\":[2],\"cipher\":[3]}",
        "{\"salt\":[1,,2],\"nonce\":[2],\"cipher\":[3]}",
        "{\"salt\":[01],\"nonce\":[2],\"cipher\":[3]}",
        "{\"salt\":[00],\"nonce\":[2],\"cipher\":[3]}",
        "{\"salt\":[256],\"nonce\":[2],\"cipher\":[3]}",
        "{\"salt\":[260],\"nonce\":[2],\"cipher\":[3]}",
        "{\"salt\":[300],\"nonce\":[2],\"cipher\":[3]}",
        "{\"salt\":[1000],\"nonce\":[2],\"cipher\":[3]}",
        "{\"salt\":[-1],\"nonce\":[2],\"cipher\":[3]}",
        "{\"salt\":[1.0],\"nonce\":[2],\"cipher\":[3]}",
        "{\"salt\":[a],\"nonce\":[2],\"cipher\":[3]}",
        "{\"salt\":[1],\"cipher\":[3],\"nonce\":[2]}",
        "{\"nonce\":[2],\"salt\":[1],\"cipher\":[3]}",
        "{\"salt\":[1],\"nonce\":[2]}",
        "{\"salt\":1,\"nonce\":[2],\"cipher\":[3]}",
        "{\"salt\":[1],\"nonce\":[2],\"cipher\":[3",
        "{\"salt\":[1],\"nonce\":[2],\"cipher\":[",
        "{\"salt\":[",
        "{\"salt\":",
    ] {
        assert!(
            decode_record(&text.as_bytes().to_vec()).is_none(),
            "{}",
            text
        );
    }
}

#[test]
fn the_largest_numbers_are_read() {
    let read = decode_record(
        &"{\"salt\":[255,255],\"nonce\":[249,250,199,200],\"cipher\":[0]}"
            .as_bytes()
            .to_vec(),
    )
    .unwrap();

    assert_eq!(vec![255, 255], read.salt);
    assert_eq!(vec![249, 250, 199, 200], read.nonce);
    assert_eq!(vec![0], read.cipher);
}
