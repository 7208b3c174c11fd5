use super_quinn::config::{ClientConfigToml, ServerConfigToml, SuperQuinnConfig};
use super_quinn::message::{MessageProcessor, MessageProcessorBuilder, RawMessage};
use super_quinn::network::{
    must_wait_for_task_slot, ClientAction, ClientPoll, QuicClient, QuicServer, StreamAction,
    StreamEvent, MAX_CHAN_SIZE,
    MAX_CONCURRENCY, MAX_QUIC_MESSAGE_BYTES,
};

fn sample_config(server_port: u16, client_port: u16) -> SuperQuinnConfig {
    SuperQuinnConfig::new(
        ServerConfigToml {
            port: server_port,
            host: "127.0.0.1".to_string(),
            tls_cert_path: "keys/server/cert.pem".to_string(),
            tls_pvt_key_path: "keys/server/key.pem".to_string(),
        },
        ClientConfigToml {
            port: client_port,
            host: "0.0.0.0".to_string(),
            tls_allowed_servers_certs_path: "keys/client/allowed.pem".to_string(),
        },
    )
}

#[test]
fn config_getters_return_the_fields() {
    let c = sample_config(4443, 5000);
    assert_eq!(c.server_port(), 4443);
    assert_eq!(c.server_addr(), "127.0.0.1");
    assert_eq!(c.client_port(), 5000);
    assert_eq!(c.client_addr(), "0.0.0.0");
    assert_eq!(c.server_rsa_cert_path(), "keys/server/cert.pem");
    assert_eq!(c.server_rsa_key_path(), "keys/server/key.pem");
    assert_eq!(c.client_allowed_server_certs_path(), "keys/client/allowed.pem");
}

#[test]
fn addresses_with_port() {
    let c = sample_config(4443, 0);
    assert_eq!(c.server_addr_with_port(), "127.0.0.1:4443");
    assert_eq!(c.client_addr_with_port(), "0.0.0.0:0");
    let c = sample_config(65535, 10);
    assert_eq!(c.server_addr_with_port(), "127.0.0.1:65535");
    assert_eq!(c.client_addr_with_port(), "0.0.0.0:10");
}

#[test]
fn constants() {
    assert_eq!(MAX_QUIC_MESSAGE_BYTES, 1024);
    assert_eq!(MAX_CONCURRENCY, 10);
    assert_eq!(MAX_CHAN_SIZE, 1024);
}

#[test]
fn task_slot_limit() {
    assert!(!must_wait_for_task_slot(0));
    assert!(!must_wait_for_task_slot(9));
    assert!(must_wait_for_task_slot(10));
    assert!(must_wait_for_task_slot(11));
}

#[test]
fn server_forwards_decoded_streams() {
    match QuicServer::on_stream_event(StreamEvent::Read(vec![1, 0, 3, 0, 7]), "peer") {
        StreamAction::Forward(batch) => {
            assert_eq!(batch.1, "peer");
            assert_eq!(batch.0.len(), 1);
            assert_eq!(batch.0[0].msg_type(), 3);
            assert_eq!(batch.0[0].msg_data(), &[7]);
        }
        _ => panic!("decodable stream not forwarded"),
    }
}

#[test]
fn server_skips_undecodable_or_failed_streams_and_closes_on_accept_failure() {
    assert!(matches!(
        QuicServer::on_stream_event(StreamEvent::Read(vec![9, 0, 3, 0, 7]), 0u8),
        StreamAction::Skip
    ));
    assert!(matches!(
        QuicServer::on_stream_event(StreamEvent::ReadFailed, 0u8),
        StreamAction::Skip
    ));
    assert!(matches!(
        QuicServer::on_stream_event(StreamEvent::AcceptFailed, 0u8),
        StreamAction::Close
    ));
}

#[test]
fn builder_collects_receiver_and_handler() {
    let b: MessageProcessorBuilder<u8, String> = MessageProcessor::builder();
    assert!(b.rx.is_none() && b.handler.is_none());
    let p = MessageProcessorBuilder::new()
        .with_receiver(5u8)
        .with_handler("h".to_string())
        .build();
    assert_eq!(p.rx, 5u8);
    assert_eq!(*p.handler, "h");
    let p2 = MessageProcessorBuilder::new()
        .with_handler(RawMessage::new(1, vec![]))
        .with_receiver(6u8)
        .build();
    assert_eq!(p2.rx, 6);
    assert_eq!(p2.handler.msg_type(), 1);
}

#[test]
fn task_count_stays_within_limit_when_waiting_before_each_start() {
    let mut held: usize = 0;
    for _ in 0..100 {
        if must_wait_for_task_slot(held) {
            held -= 1;
        }
        held += 1;
        assert!(held <= MAX_CONCURRENCY);
    }
    assert_eq!(held, MAX_CONCURRENCY);
}

#[test]
fn client_sends_queued_batches_and_stops_on_empty_or_closed_queue() {
    let batch = super_quinn::message::RawMsgsWithAddr(vec![RawMessage::new(1, vec![2])], 3u8);
    match QuicClient::on_poll(ClientPoll::Batches(vec![batch])) {
        ClientAction::Send(b) => {
            assert_eq!(b.len(), 1);
            assert_eq!(b[0].1, 3u8);
            assert_eq!(b[0].0[0].msg_data(), &[2]);
        }
        ClientAction::Stop => panic!("queued batch not sent"),
    }
    assert!(matches!(QuicClient::on_poll(ClientPoll::<u8>::Empty), ClientAction::Stop));
    assert!(matches!(QuicClient::on_poll(ClientPoll::<u8>::Disconnected), ClientAction::Stop));
}
