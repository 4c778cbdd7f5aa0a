use inference_engine_rust::text::decode_c_strings;
use inference_engine_rust::{InputInfo, Network};

#[test]
fn network_from_records_has_single_input() {
    let network = Network::from_records(
        vec!["ResNet-50".to_string()],
        vec!["data".to_string()],
        4,
        &[1, 3, 224, 224, 0, 0, 0, 0],
    );
    let inputs_info = network.get_inputs_info();
    assert!(inputs_info.len() == 1);
    for (name, info) in &inputs_info {
        assert_eq!("data", name);
        assert_eq!(vec![1, 3, 224, 224], info.dims);
    }
}

#[test]
fn network_name_is_first_name() {
    let network = Network::from_records(
        vec!["ResNet-50".to_string(), "other".to_string()],
        vec!["data".to_string(), "extra".to_string()],
        2,
        &[1, 1000, 0, 0, 0, 0, 0, 0],
    );
    assert_eq!("ResNet-50", network.get_name());
}

#[test]
fn network_new_keeps_its_parts() {
    let network = Network::new("net".to_string(), "in".to_string(), vec![2, 2]);
    let info: Vec<(String, InputInfo)> = network.get_inputs_info();
    assert_eq!(info.len(), 1);
    assert_eq!(info[0].0, "in");
    assert_eq!(info[0].1.dims, vec![2, 2]);
}

#[test]
fn decodes_device_names() {
    let raw = vec![b"CPU".to_vec(), b"GPU.0".to_vec(), Vec::new(), "caf\u{e9}".as_bytes().to_vec()];
    let names = decode_c_strings(&raw).unwrap();
    assert_eq!(names, vec!["CPU".to_string(), "GPU.0".to_string(), String::new(), "caf\u{e9}".to_string()]);
    assert_eq!(decode_c_strings(&Vec::new()).unwrap(), Vec::<String>::new());
}

#[test]
fn rejects_invalid_utf8() {
    let raw = vec![b"CPU".to_vec(), vec![0xff, 0x41], vec![0x41, 0xc3]];
    let e = decode_c_strings(&raw).err().unwrap();
    assert_eq!(e.index, 1);
    assert_eq!(e.error.valid_up_to(), 0);
    let raw = vec![b"ok".to_vec(), vec![0x41, 0xed, 0xa0, 0x80]];
    let e = decode_c_strings(&raw).err().unwrap();
    assert_eq!(e.index, 1);
    assert_eq!(e.error.valid_up_to(), 1);
}

#[test]
fn decoding_error_records_valid_prefix() {
    let raw = vec![b"GPU".to_vec(), b"CP\xffU".to_vec(), vec![0xff]];
    let e = decode_c_strings(&raw).err().unwrap();
    assert_eq!(e.index, 1);
    assert_eq!(e.valid_up_to, 2);
    assert_eq!(e.error.valid_up_to(), 2);
    assert_eq!(e.error, std::str::from_utf8(&raw[1]).unwrap_err());
}
