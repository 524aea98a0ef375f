use ray_tracer_lib::ids::get_next_material_id;
use ray_tracer_lib::ids::get_next_texture_id;

#[test]
fn first_texture_id_is_zero_padded() {
    let mut counter: u64 = 0;
    let id = get_next_texture_id(&mut counter);
    assert_eq!(id, "tex_0000000");
    assert_eq!(counter, 1);
}

#[test]
fn texture_ids_advance_with_the_counter() {
    let mut counter: u64 = 0;
    let first = get_next_texture_id(&mut counter);
    let second = get_next_texture_id(&mut counter);
    assert_eq!(first, "tex_0000000");
    assert_eq!(second, "tex_0000001");
    assert_eq!(counter, 2);
}

#[test]
fn material_ids_pad_to_seven_digits() {
    let mut counter: u64 = 42;
    let id = get_next_material_id(&mut counter);
    assert_eq!(id, "mat_0000042");
    assert_eq!(counter, 43);
}

#[test]
fn wide_counters_keep_every_digit() {
    let mut counter: u64 = 12_345_678;
    let id = get_next_texture_id(&mut counter);
    assert_eq!(id, "tex_12345678");
}

#[test]
fn texture_and_material_ids_never_collide() {
    let mut tex_counter: u64 = 7;
    let mut mat_counter: u64 = 7;
    let tex = get_next_texture_id(&mut tex_counter);
    let mat = get_next_material_id(&mut mat_counter);
    assert_ne!(tex, mat);
}

#[test]
fn distinct_counters_give_distinct_ids() {
    let mut ids = Vec::new();
    for start in [0u64, 1, 9, 10, 99, 100, 9_999_999, 10_000_000] {
        let mut counter = start;
        ids.push(get_next_texture_id(&mut counter));
    }
    for i in 0..ids.len() {
        for j in 0..ids.len() {
            if i != j {
                assert_ne!(ids[i], ids[j]);
            }
        }
    }
}
