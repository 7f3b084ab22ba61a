use body_problem::stepping::advance_by;

fn double_all(bodies: &Vec<u64>) -> Vec<u64> {
    bodies.iter().map(|body| body * 2).collect()
}

#[test]
fn no_steps_leave_the_bodies_alone() {
    assert_eq!(advance_by(vec![3, 4], 0, &double_all), vec![3, 4]);
}

#[test]
fn one_step_applies_the_kernel_once() {
    assert_eq!(advance_by(vec![3, 4], 1, &double_all), vec![6, 8]);
}

#[test]
fn steps_are_chained() {
    assert_eq!(advance_by(vec![1, 3], 10, &double_all), vec![1024, 3072]);
}

#[test]
fn each_step_sees_the_result_of_the_one_before() {
    let shift = |bodies: &Vec<u64>| {
        let mut next = bodies.clone();
        next.rotate_left(1);
        next
    };
    assert_eq!(advance_by(vec![1, 2, 3, 4], 3, &shift), vec![4, 1, 2, 3]);
}
