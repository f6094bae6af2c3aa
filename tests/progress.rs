use cmd_utils::progress::{get_progress_bar, pad_progress};

#[test]
fn progress_bar_test() {
    let bar = get_progress_bar(75, 10);
    assert_eq!(bar, "[+++++++   ]");
}

#[test]
fn pad_test() {
    let value = pad_progress(75, 4);
    assert_eq!(value, "75% ")
}

#[test]
fn pad_without_room_adds_nothing() {
    assert_eq!(pad_progress(75, 3), "75%");
    assert_eq!(pad_progress(75, 1), "75%");
    assert_eq!(pad_progress(100, 0), "100%");
}

#[test]
fn pad_to_width() {
    assert_eq!(pad_progress(5, 5), "5%   ");
    assert_eq!(pad_progress(0, 4), "0%  ");
    assert_eq!(pad_progress(4294967295, 12), "4294967295% ");
}

#[test]
fn bar_ends() {
    assert_eq!(get_progress_bar(0, 5), "[     ]");
    assert_eq!(get_progress_bar(100, 5), "[+++++]");
    assert_eq!(get_progress_bar(50, 0), "[]");
    assert_eq!(get_progress_bar(19, 5), "[     ]");
    assert_eq!(get_progress_bar(20, 5), "[+    ]");
}

#[test]
fn bar_width_and_fill_grow_with_value() {
    for length in 1..30u32 {
        let mut last = 0usize;
        for value in 0..=100u32 {
            let bar = get_progress_bar(value, length);
            assert_eq!(bar.chars().count(), length as usize + 2);
            let filled = bar.chars().filter(|c| *c == '+').count();
            assert_eq!(filled, (value * length / 100) as usize);
            assert!(filled >= last);
            last = filled;
        }
    }
}

#[test]
fn bar_largest_length() {
    let bar = get_progress_bar(1, 1000);
    assert_eq!(bar.len(), 1002);
    assert_eq!(&bar[..12], "[++++++++++ ");
}
