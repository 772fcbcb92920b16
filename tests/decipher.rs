use rusty_ytdl::decipher::{decipher_signature, extract_transform, CipherOp};

const SCRIPT: &str = "var Xy={ab:function(a,b){a.splice(0,b)},\ncd:function(a){a.reverse()},\nef:function(a,b){var c=a[0];a[0]=a[b%a.length];a[b%a.length]=c}};\nQz=function(a){a=a.split(\"\");Xy.cd(a,45);Xy.ab(a,3);Xy[\"ef\"](a,2);return a.join(\"\")};";

#[test]
fn transform_is_read_from_script_structure() {
    let ops = extract_transform(SCRIPT).unwrap();
    assert_eq!(ops, vec![CipherOp::Reverse, CipherOp::Splice(3), CipherOp::Swap(2)]);
}

#[test]
fn sample_signature_deciphers_to_known_value() {
    let ops = extract_transform(SCRIPT).unwrap();
    assert_eq!(decipher_signature("abcdefghijklmnopqrstuvwxyz", &ops), "uvwtsrqponmlkjihgfedcba");
}

#[test]
fn unsupported_script_shape_gives_no_transform() {
    assert_eq!(extract_transform("function(a){return a}"), None);
    let unknown = "var Xy={ab:function(a,b){a.push(b)}};\nQz=function(a){a=a.split(\"\");Xy.ab(a,3);return a.join(\"\")};";
    assert_eq!(extract_transform(unknown), None);
}

#[test]
fn single_steps_behave() {
    assert_eq!(decipher_signature("abc", &vec![CipherOp::Reverse]), "cba");
    assert_eq!(decipher_signature("abcdef", &vec![CipherOp::Splice(2)]), "cdef");
    assert_eq!(decipher_signature("abc", &vec![CipherOp::Splice(9)]), "");
    assert_eq!(decipher_signature("abcd", &vec![CipherOp::Swap(6)]), "cbad");
    assert_eq!(decipher_signature("", &vec![CipherOp::Swap(1)]), "");
}
