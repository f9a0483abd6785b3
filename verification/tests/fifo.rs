//! The bounded event ring: order, overwrite, and drainage.

use simeis::syslog::Fifo;
use simeis::syslog::SyslogEvent;
use simeis::syslog::SyslogFifos;

const SYSLOG_FIFO_MAX_SIZE: usize = 10;

#[test]
fn test_syslog_fifo() {
    let mut fifo = Fifo::<usize>::new();

    fifo.push(0);
    assert_eq!(fifo.remove_all(), vec![0]);

    let ntest = SYSLOG_FIFO_MAX_SIZE + 5;
    for n in 0..ntest {
        fifo.push(n);
        assert_eq!(fifo.queue_len(), (n + 1).min(SYSLOG_FIFO_MAX_SIZE), "iter {}", n);
    }

    for n in 0..ntest {
        let got = fifo.pop();
        assert_eq!(
            fifo.queue_len(),
            SYSLOG_FIFO_MAX_SIZE.saturating_sub(n + 1),
            "iter {}",
            n
        );

        if n < SYSLOG_FIFO_MAX_SIZE {
            assert_eq!(got, Some((ntest + n) - SYSLOG_FIFO_MAX_SIZE), "iter {}", n);
        } else {
            assert_eq!(got, None, "iter {}", n);
        }
    }

    for n in 0..(2 * ntest) {
        fifo.push(n);
        assert_eq!(fifo.queue_len(), (n + 1).min(SYSLOG_FIFO_MAX_SIZE), "iter {}", n);
    }

    fifo.push(usize::MAX);
    let all = fifo.remove_all();
    assert_eq!(all.len(), SYSLOG_FIFO_MAX_SIZE);
    assert_eq!(all.first(), Some(&(((2 * ntest) + 1) - SYSLOG_FIFO_MAX_SIZE)));
    assert_eq!(all.last(), Some(&usize::MAX));
}

#[test]
fn fifo_overwrite_keeps_newest_ten() {
    let mut fifos = SyslogFifos::new();
    for n in 1..=12u64 {
        fifos.add_to_fifo(7, n, SyslogEvent::LowFunds(n));
    }
    let drained = fifos.drain(7);
    assert_eq!(drained.len(), 10);
    for (k, (stamp, ev)) in drained.iter().enumerate() {
        let expected = (k as u64) + 3;
        assert_eq!(*stamp, expected);
        match ev {
            SyslogEvent::LowFunds(v) => assert_eq!(*v, expected),
            _ => panic!("unexpected event"),
        }
    }
    assert_eq!(fifos.drain(7).len(), 0);
}

#[test]
fn drain_unknown_player_is_empty() {
    let mut fifos = SyslogFifos::new();
    assert_eq!(fifos.drain(3).len(), 0);
}
