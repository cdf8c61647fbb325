use urcu::boxed::RcuBox;
use urcu::hashmap::RcuHashMap;
use urcu::list::RcuList;
use urcu::queue::RcuQueue;
use urcu::reference::{Ref, RefOwned};
use urcu::stack::RcuStack;

fn is_send<T: Send>() {}
fn is_sync<T: Sync>() {}

#[derive(PartialEq)]
struct SendAndSync(u32);

#[test]
fn containers_are_send_and_sync_with_their_elements() {
    is_send::<RcuList<SendAndSync>>();
    is_sync::<RcuList<SendAndSync>>();
    is_send::<RcuQueue<SendAndSync>>();
    is_sync::<RcuQueue<SendAndSync>>();
    is_send::<RcuStack<SendAndSync>>();
    is_sync::<RcuStack<SendAndSync>>();
    is_send::<RcuBox<SendAndSync>>();
    is_sync::<RcuBox<SendAndSync>>();
    is_send::<RcuHashMap<SendAndSync, SendAndSync>>();
    is_sync::<RcuHashMap<SendAndSync, SendAndSync>>();
    is_send::<Ref<SendAndSync>>();
    is_send::<RefOwned<SendAndSync>>();
    is_sync::<RefOwned<SendAndSync>>();
}
