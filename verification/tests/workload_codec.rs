use rust_benchmark::artifact::artifact_name;
use rust_benchmark::codec::{finish_task, serialize_record};
use rust_benchmark::digits::u64_to_string;
use rust_benchmark::outcome::FailureKind;
use rust_benchmark::record::build_record;
use rust_benchmark::workload::prepare_task;

#[test]
fn decimal_rendering_exact() {
    assert_eq!(u64_to_string(0).as_str(), "0");
    assert_eq!(u64_to_string(7).as_str(), "7");
    assert_eq!(u64_to_string(10).as_str(), "10");
    assert_eq!(u64_to_string(409).as_str(), "409");
    assert_eq!(u64_to_string(u64::MAX).as_str(), "18446744073709551615");
}

#[test]
fn artifact_name_exact() {
    assert_eq!(artifact_name(0).as_str(), "task_output_0.json");
    assert_eq!(artifact_name(42).as_str(), "task_output_42.json");
}

#[test]
fn artifact_names_are_distinct() {
    let names: Vec<String> = (0..60).map(artifact_name).collect();
    for i in 0..names.len() {
        for j in 0..names.len() {
            if i != j {
                assert_ne!(names[i], names[j]);
            }
        }
    }
}

#[test]
fn record_embeds_its_task_id() {
    for id in 0..6 {
        let t = prepare_task(id, 11, 22, 1, 2, 3);
        assert_eq!(t.record.id, id);
        assert_eq!(t.record.math_bits, 11);
        assert_eq!(t.record.aux_bits, 22);
        assert_eq!(t.record.sample, vec![1, 2, 3]);
        assert_eq!(t.record.subs.len(), 4);
    }
}

#[test]
fn serialization_exact() {
    let rec = build_record(1, 2, 3, 4, 5, 6);
    let text = serialize_record(&rec);
    assert_eq!(
        text.as_str(),
        "{\"id\":1,\"math\":2,\"aux\":3,\"sample\":[4,5,6],\"subs\":[[0,1],[1,1001],[2,2001],[3,3001]]}"
    );
}

#[test]
fn prepare_twice_is_bit_identical() {
    let a = prepare_task(9, 123, 456, 7, 8, 9);
    let b = prepare_task(9, 123, 456, 7, 8, 9);
    assert_eq!(a.content, b.content);
    assert_eq!(a.name, b.name);
    assert_eq!(a.record.subs, b.record.subs);
}

#[test]
fn finish_task_accepts_faithful_readback() {
    let t = prepare_task(5, 1, 2, 3, 4, 5);
    let content = t.content.clone();
    let out = finish_task(t.record, &content).unwrap();
    assert_eq!(out.id, 5);
}

#[test]
fn finish_task_rejects_corrupted_readback() {
    let t = prepare_task(5, 1, 2, 3, 4, 5);
    let mut content = t.content.clone();
    content.push('x');
    let err = finish_task(t.record, &content).unwrap_err();
    assert_eq!(err.id, 5);
    assert!(matches!(err.kind, FailureKind::Serialization));
}

#[test]
fn finish_task_rejects_other_records_content() {
    let a = prepare_task(5, 1, 2, 3, 4, 5);
    let b = prepare_task(6, 1, 2, 3, 4, 5);
    let err = finish_task(a.record, &b.content).unwrap_err();
    assert_eq!(err.id, 5);
}
