use asteroids_3d::model::{ModelInstances, MAX_INSTANCES};

fn to_raw(x: &u32) -> u64 {
    (*x as u64) * 2
}

fn store(num_slots: usize) -> ModelInstances<&'static str, u32, u64> {
    ModelInstances::new(vec!["ship", "rock"], num_slots, 7u32, to_raw)
}

fn range(m: &ModelInstances<&'static str, u32, u64>, id: usize) -> (u32, u32) {
    let r = m.model_buckets()[id].get_instance_range();
    (r.start, r.end)
}

#[test]
fn new_store_is_empty_and_blank() {
    let m = store(10);
    assert_eq!(m.model_buckets().len(), 2);
    assert_eq!(m.model_buckets()[0].model, "ship");
    assert_eq!(m.model_buckets()[1].model, "rock");
    assert_eq!(range(&m, 0), (0, 0));
    assert_eq!(range(&m, 1), (0, 0));
    assert_eq!(m.instances().len(), MAX_INSTANCES);
    assert!(m.instances().iter().all(|x| *x == 7));
    assert_eq!(m.raw_instances().len(), MAX_INSTANCES);
    assert!(m.raw_instances().iter().all(|r| *r == 14));
    assert_eq!(m.num_slots(), 10);
    assert!(m.instances_to_update().is_empty());
    assert_eq!(m.get_instances_from_model_id(0), Some(&[][..]));
}

#[test]
fn add_appends_to_its_bucket_and_shifts_later_ones() {
    let mut m = store(10);
    m.add_instance(1, 100, to_raw);
    m.add_instance(0, 1, to_raw);
    m.add_instance(0, 2, to_raw);
    m.add_instance(1, 200, to_raw);
    assert_eq!(m.get_instances_from_model_id(0), Some(&[1, 2][..]));
    assert_eq!(m.get_instances_from_model_id(1), Some(&[100, 200][..]));
    assert_eq!(range(&m, 0), (0, 2));
    assert_eq!(range(&m, 1), (2, 4));
    assert_eq!(&m.raw_instances()[0..4], &[2, 4, 200, 400]);
    assert_eq!(m.instances().len(), MAX_INSTANCES);
    assert_eq!(m.raw_instances().len(), MAX_INSTANCES);
    assert_eq!(m.instances()[4], 7);
}

#[test]
fn remove_deletes_one_instance() {
    let mut m = store(10);
    m.add_instance(0, 1, to_raw);
    m.add_instance(0, 2, to_raw);
    m.add_instance(0, 3, to_raw);
    m.add_instance(1, 100, to_raw);
    m.remove_instance(0, 1);
    assert_eq!(m.get_instances_from_model_id(0), Some(&[1, 3][..]));
    assert_eq!(m.get_instances_from_model_id(1), Some(&[100][..]));
    assert_eq!(range(&m, 1), (2, 3));
    assert_eq!(m.instances().len(), MAX_INSTANCES - 1);
    assert_eq!(m.raw_instances().len(), MAX_INSTANCES - 1);
    assert_eq!(&m.raw_instances()[0..3], &[2, 6, 200]);
}

#[test]
fn add_then_remove_restores_the_layout() {
    let mut m = store(10);
    m.add_instance(0, 1, to_raw);
    m.add_instance(1, 100, to_raw);
    m.add_instance(0, 9, to_raw);
    assert_eq!(range(&m, 1), (2, 3));
    m.remove_instance(0, 1);
    assert_eq!(range(&m, 0), (0, 1));
    assert_eq!(range(&m, 1), (1, 2));
    assert_eq!(m.get_instances_from_model_id(0), Some(&[1][..]));
    assert_eq!(m.get_instances_from_model_id(1), Some(&[100][..]));
}

#[test]
fn get_mut_instance_changes_one_instance_and_marks_it() {
    let mut m = store(10);
    m.add_instance(0, 1, to_raw);
    m.add_instance(1, 100, to_raw);
    m.add_instance(1, 200, to_raw);
    *m.get_mut_instance(1, 1) = 250;
    assert_eq!(m.get_instances_from_model_id(1), Some(&[100, 250][..]));
    assert_eq!(m.get_instances_from_model_id(0), Some(&[1][..]));
    assert!(m.instances_to_update().contains(&2));
    assert_eq!(m.instances_to_update().len(), 1);
    // The raw form is only refreshed by update_raw_instances.
    assert_eq!(m.raw_instances()[2], 400);
}

#[test]
fn update_raw_instances_refreshes_pending_slots_only() {
    let mut m = store(10);
    assert!(!m.update_raw_instances(to_raw));
    m.add_instance(0, 1, to_raw);
    m.add_instance(0, 2, to_raw);
    *m.get_mut_instance(0, 1) = 30;
    assert_eq!(m.raw_instances()[1], 4);
    assert!(m.update_raw_instances(|x: &u32| (*x as u64) + 1000));
    assert_eq!(m.raw_instances()[1], 1030);
    assert_eq!(m.raw_instances()[0], 2);
    // The pending set is kept.
    assert!(m.instances_to_update().contains(&1));
    assert!(m.update_raw_instances(to_raw));
    assert_eq!(m.raw_instances()[1], 60);
}

#[test]
fn bucket_past_the_end_of_storage_reads_as_none() {
    let mut m = store(2 * MAX_INSTANCES);
    for i in 0..(MAX_INSTANCES - 1) {
        m.add_instance(1, i as u32, to_raw);
    }
    // The storage holds its last spare slot; this add takes it.
    m.add_instance(0, 5000, to_raw);
    assert_eq!(range(&m, 1), (1, MAX_INSTANCES as u32));
    assert!(m.get_instances_from_model_id(1).is_some());
    // With no spare slot left, adding drops the last stored instance.
    m.add_instance(0, 5001, to_raw);
    assert_eq!(range(&m, 1), (2, MAX_INSTANCES as u32 + 1));
    assert_eq!(m.get_instances_from_model_id(1), None);
    assert_eq!(m.get_instances_from_model_id(0), Some(&[5000, 5001][..]));
    assert_eq!(m.instances().len(), MAX_INSTANCES);
}
