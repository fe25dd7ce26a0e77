use std::collections::VecDeque;
use std::time::Duration;

use completeio::driver::{
    CompleteIo, Driver, Entry, OpObject, OpRef, Operation, CANCEL_USER_DATA, ECANCELED, EINVAL,
};
use completeio::op::{
    Accept, Connect, OpCode, OpKind, ReadAt, Recv, RecvFrom, RecvFromVectored, RecvVectored, Send,
    SendTo, SendToVectored, SendVectored, Sync, Timeout, WriteAt, SOCKADDR_STORAGE_LEN,
};

/// Copy `data` into the room of a receive buffer, as the kernel would.
fn kernel_fill(storage: &mut Vec<u8>, init: usize, data: &[u8]) {
    storage[init..init + data.len()].copy_from_slice(data);
}

#[test]
fn file_read_reports_bytes_and_fills_buffer() {
    let mut driver = Driver::new();
    assert!(driver.attach(3).is_ok());
    let mut op = ReadAt::new(3, 0, Vec::with_capacity(4096));
    {
        let mut ops = VecDeque::from([OpObject::new(OpRef::ReadAt(&mut op), 0)]);
        driver.push_queue(&mut ops);
        assert!(ops.is_empty());
    }
    let records = driver.submit();
    assert_eq!(records.len(), 1);
    assert_eq!(records[0].opcode, OpKind::Read);
    assert_eq!(records[0].fd, 3);
    assert_eq!(records[0].offset, 0);
    assert!(records[0].len >= 4096);
    assert_eq!(records[0].user_data, 0);

    let buf = op.buffer_mut();
    let init = buf.buf_len();
    kernel_fill(buf.as_mut_storage(), init, b"hello");
    let mut entries = Vec::new();
    driver.complete(&vec![(0, 5)], &mut entries);
    assert_eq!(entries.len(), 1);
    let entry = entries.pop().unwrap();
    assert_eq!(entry.user_data(), 0);
    let n = entry.into_result().unwrap();
    assert_eq!(n, 5);
    op.buffer_mut().set_init(n);
    assert_eq!(op.into_inner(), b"hello".to_vec());
}

#[test]
fn udp_round_trip_reports_both() {
    let mut driver = Driver::new();
    let mut op_write = Send::new(3, b"hello world".to_vec());
    let mut op_read = Recv::new(4, Vec::with_capacity(32));
    {
        let mut ops = VecDeque::from([
            OpObject::new(OpRef::Send(&mut op_write), 1),
            OpObject::new(OpRef::Recv(&mut op_read), 2),
        ]);
        driver.push_queue(&mut ops);
    }
    let records = driver.submit();
    assert_eq!(records.len(), 2);
    assert_eq!(records[0].opcode, OpKind::Writev);
    assert_eq!(records[0].len, 11);
    assert_eq!(records[1].opcode, OpKind::Readv);
    assert!(records[1].len >= 32);

    let buf = op_read.buffer_mut();
    let init = buf.buf_len();
    kernel_fill(buf.as_mut_storage(), init, b"hello world");
    let mut entries = Vec::new();
    driver.complete(&vec![(2, 11)], &mut entries);
    driver.complete(&vec![(1, 11)], &mut entries);
    assert_eq!(entries.len(), 2);
    let mut n_bytes = 0;
    for entry in entries {
        match entry.user_data() {
            1 => assert_eq!(entry.into_result().unwrap(), 11),
            2 => n_bytes = entry.into_result().unwrap(),
            _ => unreachable!(),
        }
    }
    assert_eq!(n_bytes, 11);
    op_read.buffer_mut().set_init(n_bytes);
    assert_eq!(op_read.into_inner(), b"hello world".to_vec());
    assert_eq!(op_write.into_inner(), b"hello world".to_vec());
}

#[test]
fn queue_full_returns_op_unchanged() {
    let mut driver = Driver::with_entries(1).unwrap();
    let mut first = Sync::new(3, false);
    let mut second = Sync::new(4, true);
    assert_eq!(driver.capacity_left(), 1);
    assert!(driver.try_push(Operation::new(&mut first, 1)).is_ok());
    assert_eq!(driver.capacity_left(), 0);
    let back = driver.try_push(Operation::new(&mut second, 2));
    let mut back = match back {
        Err(op) => op,
        Ok(()) => panic!("a full queue admitted an operation"),
    };
    assert_eq!(back.user_data(), 2);
    assert_eq!(back.opcode().create_entry().fd, 4);
    assert_eq!(driver.capacity_left(), 0);
}

#[test]
fn full_queue_admits_again_after_submit() {
    let mut driver = Driver::with_entries(1).unwrap();
    let mut first = Sync::new(3, false);
    let mut second = Sync::new(4, true);
    assert!(driver.try_push(Operation::new(&mut first, 1)).is_ok());
    assert!(driver.try_push(Operation::new(&mut second, 2)).is_err());
    let records = driver.submit();
    assert_eq!(records.len(), 1);
    let mut entries = Vec::new();
    driver.complete(&vec![(1, 0)], &mut entries);
    assert_eq!(entries.len(), 1);
    assert!(driver.try_push(Operation::new(&mut second, 2)).is_ok());
    let records = driver.submit();
    assert_eq!(records[0].fd, 4);
    assert!(records[0].datasync);
}

#[test]
fn cancel_queued_timer_reports_cancelled() {
    let mut driver = Driver::new();
    let mut timer = Timeout::new(Duration::from_secs(10));
    assert!(driver.try_push(Operation::new(&mut timer, 7)).is_ok());
    assert!(driver.try_cancel(7).is_ok());
    let records = driver.submit();
    assert!(records.is_empty());
    let mut entries = Vec::new();
    driver.complete(&Vec::new(), &mut entries);
    assert_eq!(entries.len(), 1);
    let entry = entries.pop().unwrap();
    assert_eq!(entry.user_data(), 7);
    let err = entry.into_result().unwrap_err();
    assert_eq!(err.raw_os_error(), Some(ECANCELED));
}

#[test]
fn cancel_in_flight_sends_request_and_reports_once() {
    let mut driver = Driver::new();
    let mut timer = Timeout::new(Duration::from_secs(10));
    assert!(driver.try_push(Operation::new(&mut timer, 7)).is_ok());
    let records = driver.submit();
    assert_eq!(records.len(), 1);
    assert_eq!(records[0].opcode, OpKind::Timeout);
    assert_eq!(records[0].timeout, Some(Duration::from_secs(10)));
    assert!(driver.try_cancel(7).is_ok());
    assert_eq!(driver.capacity_left(), 255);
    let records = driver.submit();
    assert_eq!(records.len(), 1);
    assert_eq!(records[0].opcode, OpKind::AsyncCancel);
    assert_eq!(records[0].user_data, 7);
    let mut entries = Vec::new();
    driver.complete(&vec![(CANCEL_USER_DATA, 0), (7, -ECANCELED), (7, -ECANCELED)], &mut entries);
    assert_eq!(entries.len(), 1);
    assert_eq!(entries[0].user_data(), 7);
    let entry = entries.pop().unwrap();
    assert_eq!(entry.into_result().unwrap_err().raw_os_error(), Some(ECANCELED));
}

#[test]
fn cancel_needs_a_slot() {
    let mut driver = Driver::with_entries(1).unwrap();
    let mut first = Sync::new(3, false);
    assert!(driver.try_push(Operation::new(&mut first, 1)).is_ok());
    driver.submit();
    let mut second = Sync::new(3, false);
    assert!(driver.try_push(Operation::new(&mut second, 2)).is_ok());
    assert_eq!(driver.try_cancel(1), Err(()));
    assert!(driver.try_cancel(2).is_ok());
    assert_eq!(driver.capacity_left(), 1);
}

#[test]
fn short_wait_returns_nothing() {
    let mut driver = Driver::new();
    assert_eq!(driver.wait_for(Some(Duration::ZERO)), 0);
    assert_eq!(driver.wait_for(Some(Duration::from_millis(5))), 1);
    assert_eq!(driver.wait_for(None), 1);
    let records = driver.submit();
    assert!(records.is_empty());
    let mut entries: Vec<Entry> = Vec::new();
    driver.complete(&Vec::new(), &mut entries);
    assert!(entries.is_empty());
}

#[test]
fn ready_entries_need_no_wait() {
    let mut driver = Driver::new();
    let mut timer = Timeout::new(Duration::from_secs(1));
    assert!(driver.try_push(Operation::new(&mut timer, 9)).is_ok());
    assert!(driver.try_cancel(9).is_ok());
    assert_eq!(driver.wait_for(None), 0);
}

#[test]
fn vectored_send_reports_total() {
    let mut driver = Driver::new();
    let mut op = SendVectored::new(5, vec![b"ab".to_vec(), b"cde".to_vec()]);
    assert!(driver.try_push(Operation::new(&mut op, 3)).is_ok());
    let records = driver.submit();
    assert_eq!(records[0].opcode, OpKind::Writev);
    assert_eq!(records[0].len, 5);
    assert_eq!(records[0].iovecs, 2);
    let mut entries = Vec::new();
    driver.complete(&vec![(3, 5)], &mut entries);
    assert_eq!(entries.len(), 1);
    assert_eq!(entries[0].user_data(), 3);
    let entry = entries.pop().unwrap();
    assert_eq!(entry.into_result().unwrap(), 5);
    assert_eq!(op.into_inner().concat(), b"abcde".to_vec());
}

#[test]
fn push_queue_keeps_the_rest_in_order() {
    let mut driver = Driver::with_entries(2).unwrap();
    let mut a = Sync::new(1, false);
    let mut b = Sync::new(2, false);
    let mut c = Sync::new(3, false);
    let mut ops = VecDeque::from([
        OpObject::new(OpRef::Sync(&mut a), 10),
        OpObject::new(OpRef::Sync(&mut b), 11),
        OpObject::new(OpRef::Sync(&mut c), 12),
    ]);
    driver.push_queue(&mut ops);
    assert_eq!(ops.len(), 1);
    assert_eq!(ops[0].user_data(), 12);
    assert_eq!(driver.capacity_left(), 0);
    let records = driver.submit();
    assert_eq!(records.len(), 2);
    assert_eq!(records[0].user_data, 10);
    assert_eq!(records[1].user_data, 11);
    driver.push_queue(&mut ops);
    assert!(ops.is_empty());
    assert_eq!(driver.submit()[0].user_data, 12);
}

#[test]
fn read_past_end_reports_zero() {
    let mut driver = Driver::new();
    let mut op = ReadAt::new(3, 1 << 20, Vec::with_capacity(16));
    assert!(driver.try_push(Operation::new(&mut op, 4)).is_ok());
    let records = driver.submit();
    assert_eq!(records[0].offset, 1 << 20);
    let mut entries = Vec::new();
    driver.complete(&vec![(4, 0)], &mut entries);
    let entry = entries.pop().unwrap();
    assert_eq!(entry.into_result().unwrap(), 0);
    op.buffer_mut().set_init(0);
    assert!(op.into_inner().is_empty());
}

#[test]
fn short_recv_keeps_exact_count() {
    let mut op = Recv::new(4, Vec::with_capacity(32));
    let buf = op.buffer_mut();
    let init = buf.buf_len();
    assert!(buf.uninit_len() >= 32);
    kernel_fill(buf.as_mut_storage(), init, b"abc");
    buf.set_init(3);
    assert_eq!(buf.buf_len(), 3);
    assert_eq!(op.into_inner(), b"abc".to_vec());
}

#[test]
fn recv_keeps_initialized_prefix() {
    let mut given = Vec::with_capacity(8);
    given.extend_from_slice(b"xy");
    let mut op = Recv::new(4, given);
    let buf = op.buffer_mut();
    assert_eq!(buf.buf_len(), 2);
    kernel_fill(buf.as_mut_storage(), 2, b"z");
    buf.set_init(1);
    assert_eq!(op.into_inner(), b"xyz".to_vec());
}

#[test]
fn kernel_error_is_reported_as_os_error() {
    let mut driver = Driver::new();
    let mut op = Connect::new(6, vec![2, 0, 0, 80, 127, 0, 0, 1]);
    assert!(driver.try_push(Operation::new(&mut op, 21)).is_ok());
    let records = driver.submit();
    assert_eq!(records[0].opcode, OpKind::Connect);
    assert_eq!(records[0].addr_len, 8);
    let mut entries = Vec::new();
    driver.complete(&vec![(21, -111)], &mut entries);
    let entry = entries.pop().unwrap();
    assert_eq!(entry.into_result().unwrap_err().raw_os_error(), Some(111));
}

#[test]
fn unknown_completions_are_dropped() {
    let mut driver = Driver::new();
    let mut entries = Vec::new();
    driver.complete(&vec![(99, 3), (CANCEL_USER_DATA, 0)], &mut entries);
    assert!(entries.is_empty());
}

#[test]
fn zero_entries_is_refused() {
    assert_eq!(Driver::with_entries(0).err(), Some(EINVAL));
}

#[test]
fn entry_carries_token_and_result() {
    let ok = Entry::new(5, Ok(42));
    assert_eq!(ok.user_data(), 5);
    assert_eq!(ok.into_result().unwrap(), 42);
    let err = Entry::from_kernel(6, -2);
    assert_eq!(err.user_data(), 6);
    assert_eq!(err.into_result().unwrap_err().raw_os_error(), Some(2));
    let done = Entry::from_kernel(7, 9);
    assert_eq!(done.into_result().unwrap(), 9);
}

#[test]
fn records_of_each_operation() {
    let write = WriteAt::new(3, 7, b"data".to_vec()).create_entry();
    assert_eq!(write.opcode, OpKind::Write);
    assert_eq!(write.offset, 7);
    assert_eq!(write.len, 4);

    let sync = Sync::new(3, true).create_entry();
    assert_eq!(sync.opcode, OpKind::Fsync);
    assert!(sync.datasync);

    let mut accept = Accept::new(3);
    let rec = accept.create_entry();
    assert_eq!(rec.opcode, OpKind::Accept);
    assert_eq!(rec.addr_len, SOCKADDR_STORAGE_LEN);
    accept.addr_mut()[0] = 2;
    accept.set_addr_len(16);
    let peer = accept.peer_addr();
    assert_eq!(peer.len(), 16);
    assert_eq!(peer[0], 2);

    let recv_from = RecvFrom::new(3, Vec::with_capacity(8)).create_entry();
    assert_eq!(recv_from.opcode, OpKind::RecvMsg);
    assert_eq!(recv_from.addr_len, SOCKADDR_STORAGE_LEN);
    assert!(recv_from.len >= 8);

    let send_to = SendTo::new(3, b"ping".to_vec(), vec![0; 16]).create_entry();
    assert_eq!(send_to.opcode, OpKind::SendMsg);
    assert_eq!(send_to.len, 4);
    assert_eq!(send_to.addr_len, 16);
}

#[test]
fn op_object_keeps_token() {
    let mut op = Sync::new(8, false);
    let mut obj = OpObject::new(OpRef::Sync(&mut op), 77);
    assert_eq!(obj.user_data(), 77);
    assert_eq!(obj.opcode().create_entry().fd, 8);
    let mut op2 = Sync::new(9, false);
    let mut plain = Operation::new(&mut op2, 78);
    assert_eq!(plain.user_data(), 78);
    assert_eq!(plain.opcode().create_entry().fd, 9);
}

#[test]
fn vectored_recv_fills_buffers_in_order() {
    let mut driver = Driver::new();
    let mut op = RecvVectored::new(4, vec![Vec::with_capacity(2), Vec::with_capacity(8)]);
    let first_room = op.buffer_mut(0).uninit_len();
    let second_room = op.buffer_mut(1).uninit_len();
    assert!(first_room >= 2 && second_room >= 8);
    {
        let mut ops = VecDeque::from([OpObject::new(OpRef::RecvVectored(&mut op), 5)]);
        driver.push_queue(&mut ops);
    }
    let records = driver.submit();
    assert_eq!(records[0].opcode, OpKind::Readv);
    assert_eq!(records[0].iovecs, 2);
    assert_eq!(records[0].len, first_room + second_room);

    let data = b"abcdefghijklmnopqrstuvwxyz";
    let n = first_room + 3;
    kernel_fill(op.buffer_mut(0).as_mut_storage(), 0, &data[..first_room]);
    kernel_fill(op.buffer_mut(1).as_mut_storage(), 0, &data[first_room..n]);
    let mut entries = Vec::new();
    driver.complete(&vec![(5, n as i32)], &mut entries);
    assert_eq!(entries.pop().unwrap().into_result().unwrap(), n);
    op.set_init(n);
    let bufs = op.into_inner();
    assert_eq!(bufs.len(), 2);
    assert_eq!(bufs[0], data[..first_room].to_vec());
    assert_eq!(bufs[1], data[first_room..n].to_vec());
}

#[test]
fn vectored_datagram_records() {
    let mut recv = RecvFromVectored::new(4, vec![Vec::with_capacity(4), Vec::with_capacity(4)]);
    let rec = recv.create_entry();
    assert_eq!(rec.opcode, OpKind::RecvMsg);
    assert_eq!(rec.iovecs, 2);
    assert_eq!(rec.addr_len, SOCKADDR_STORAGE_LEN);
    assert!(rec.len >= 8);
    recv.addr_mut()[0] = 2;
    assert_eq!(recv.buffers_mut().len(), 2);

    let send = SendToVectored::new(4, vec![b"ab".to_vec(), b"cde".to_vec()], vec![0; 16]);
    let rec = send.create_entry();
    assert_eq!(rec.opcode, OpKind::SendMsg);
    assert_eq!(rec.iovecs, 2);
    assert_eq!(rec.len, 5);
    assert_eq!(rec.addr_len, 16);
    assert_eq!(send.buffers().len(), 2);
    assert_eq!(send.addr().len(), 16);
}

#[test]
fn each_accepted_op_is_reported_once() {
    let mut driver = Driver::new();
    let mut a = Sync::new(1, false);
    let mut b = Sync::new(2, false);
    let mut c = Sync::new(3, false);
    assert!(driver.try_push(Operation::new(&mut a, 1)).is_ok());
    assert!(driver.try_push(Operation::new(&mut b, 2)).is_ok());
    assert!(driver.try_push(Operation::new(&mut c, 3)).is_ok());
    driver.submit();
    let mut entries = Vec::new();
    driver.complete(&vec![(2, 0), (2, 0), (4, 0)], &mut entries);
    driver.complete(&vec![(1, 0), (2, 0), (3, -5), (1, 0)], &mut entries);
    let mut tokens: Vec<usize> = entries.iter().map(|e| e.user_data()).collect();
    assert_eq!(tokens, vec![2, 1, 3]);
    tokens.sort();
    assert_eq!(tokens, vec![1, 2, 3]);
}
