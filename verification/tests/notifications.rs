use humility_cmd_tasks::notification::{decode_notifications, explain_recv};
use humility_cmd_tasks::task_id::TaskId;

fn names() -> Vec<String> {
    ["jefe", "rcc_driver", "gpio_driver", "usart_driver", "i2c_driver", "spi_driver", "user_leds", "pong", "ping", "hiffy", "hf", "idle"]
        .iter()
        .map(|s| s.to_string())
        .collect()
}

fn recv(src: Option<TaskId>, notmask: u32, irqs: &[(u32, u32)], timer: Option<(i64, u32)>) -> String {
    let mut s = String::new();
    explain_recv(&mut s, &names(), src, notmask, irqs, timer);
    s
}

#[test]
fn open_receive_with_timer_bit() {
    assert_eq!(recv(None, 0b11, &[], Some((7, 0b10))), "recv, notif: bit0 bit1(T+7)");
}

#[test]
fn open_receive_with_interrupt() {
    assert_eq!(recv(None, 0b1, &[(0b1, 39)], None), "recv, notif: bit0(irq39)");
}

#[test]
fn plain_open_receive() {
    assert_eq!(recv(None, 0, &[(0b1, 39)], Some((7, 0b1))), "recv");
}

#[test]
fn kernel_receive_shows_only_notifications() {
    assert_eq!(recv(Some(TaskId::kernel()), 0b1, &[], Some((7, 0b1))), "notif: bit0(T+7)");
    assert_eq!(recv(Some(TaskId::kernel()), 0b1, &[], Some((18, 0b1))), "notif: bit0(T+18)");
}

#[test]
fn kernel_receive_without_notifications_is_dead() {
    assert_eq!(recv(Some(TaskId::kernel()), 0, &[], None), "(DEAD)");
}

#[test]
fn closed_receive_from_a_task() {
    assert_eq!(recv(Some(TaskId(7)), 0, &[], None), "recv(pong/gen0 only)");
    assert_eq!(recv(Some(TaskId(7)), 0b100, &[], None), "recv(pong/gen0 only), notif: bit2");
}

#[test]
fn timer_and_several_interrupts_on_one_bit() {
    assert_eq!(
        recv(None, 0b1, &[(0b1, 3), (0b10, 4), (0b1, 5)], Some((-2, 0b1))),
        "recv, notif: bit0(T-2/irq3/irq5)"
    );
    assert_eq!(recv(None, 0b1, &[(0b1, 3), (0b1, 5)], None), "recv, notif: bit0(irq3/irq5)");
}

#[test]
fn interrupt_with_a_mask_of_several_bits_posts_none_of_them_alone() {
    assert_eq!(recv(None, 0b11, &[(0b11, 9)], None), "recv, notif: bit0 bit1");
}

#[test]
fn bits_are_named_by_their_number() {
    assert_eq!(recv(None, 0b1010, &[(0b1000, 12)], None), "recv, notif: bit1 bit3(irq12)");
    assert_eq!(recv(None, 0x8000_0001, &[], None), "recv, notif: bit0 bit31");
}

#[test]
fn decoded_bits_are_exactly_the_set_bits() {
    for mask in [0u32, 1, 0b1010, 0x8000_0000, 0xffff_ffff, 0x1234_5678] {
        let notes = decode_notifications(mask, &[], None);
        let bits: Vec<u32> = notes.iter().map(|n| n.bit).collect();
        let expected: Vec<u32> = (0..32).filter(|i| mask & (1 << i) != 0).collect();
        assert_eq!(bits, expected);
        let rebuilt = bits.iter().fold(0u32, |m, b| m | (1 << b));
        assert_eq!(rebuilt, mask);
    }
}

#[test]
fn decoded_bits_carry_their_interrupts_and_timer() {
    let notes = decode_notifications(0b101, &[(0b100, 7), (0b1, 1), (0b100, 8)], Some((100, 0b100)));
    assert_eq!(notes.len(), 2);
    assert_eq!(notes[0].bit, 0);
    assert_eq!(notes[0].irqs, vec![1]);
    assert_eq!(notes[0].timer, None);
    assert_eq!(notes[1].bit, 2);
    assert_eq!(notes[1].irqs, vec![7, 8]);
    assert_eq!(notes[1].timer, Some(100));
}

#[test]
fn different_masks_print_differently() {
    let masks = [0u32, 1, 2, 3, 0b1010, 0b0101, 0x8000_0000, 0xffff_ffff, 0x1000_0001];
    for src in [None, Some(TaskId::kernel()), Some(TaskId(2))] {
        let texts: Vec<String> = masks.iter().map(|m| recv(src, *m, &[(0b1, 39)], Some((5, 0b11)))).collect();
        for i in 0..texts.len() {
            for j in 0..texts.len() {
                if i != j {
                    assert_ne!(texts[i], texts[j]);
                }
            }
        }
    }
}
