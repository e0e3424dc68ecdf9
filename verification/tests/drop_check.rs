use bytes::Bytes;
use std::sync::atomic::{AtomicBool, Ordering};
use std::sync::Arc;
use stream_json::derived::members::{object, push_member};
use stream_json::error::Error;
use stream_json::serde::{IntoSerializer, Poll, Serializer};
use stream_json::std_impl::DynObjectSerializer;

/// A task context whose waker does nothing.
fn cx() -> std::task::Context<'static> {
    std::task::Context::from_waker(std::task::Waker::noop())
}

fn poll_next<S: Serializer>(ser: &mut S) -> Option<Result<Bytes, Error>> {
    match ser.poll(&mut cx()) {
        Poll::Ready(v) => v,
        Poll::Pending => panic!("poll returned Pending"),
    }
}

fn collect_bytes<S: Serializer>(mut ser: S) -> Vec<u8> {
    let mut result = Vec::new();
    while let Some(Ok(bytes)) = poll_next(&mut ser) {
        result.extend_from_slice(&bytes);
    }
    result
}

/// Two fields, serialized as an object the way the derived structs are.
pub struct DropCheckStruct {
    pub a: DropCheckA,
    pub b: DropCheckB,
}

impl IntoSerializer for DropCheckStruct {
    type S = DynObjectSerializer;
    fn into_serializer(self) -> Self::S {
        let mut fields = Vec::new();
        push_member(&mut fields, "a", self.a);
        push_member(&mut fields, "b", self.b);
        object(fields)
    }
    fn size(&self) -> Option<usize> {
        None
    }
}

pub struct DropCheckA {
    pub state: Arc<AtomicBool>,
}

pub struct DropCheckASerializer {
    emitted: bool,
    dropped: Arc<AtomicBool>,
}

impl Serializer for DropCheckASerializer {
    fn poll(&mut self, _cx: &mut std::task::Context<'_>) -> Poll<Option<Result<Bytes, Error>>> {
        if self.emitted {
            Poll::Ready(None)
        } else {
            self.emitted = true;
            Poll::Ready(Some(Ok(Bytes::from_static(b"1"))))
        }
    }
}

impl Drop for DropCheckASerializer {
    fn drop(&mut self) {
        self.dropped.store(true, Ordering::SeqCst);
    }
}

impl IntoSerializer for DropCheckA {
    type S = DropCheckASerializer;

    fn into_serializer(self) -> Self::S {
        Self::S {
            emitted: false,
            dropped: self.state,
        }
    }
    fn size(&self) -> Option<usize> {
        Some(1)
    }
}

pub struct DropCheckB {
    pub state: Arc<AtomicBool>,
}

pub struct DropCheckBSerializer {
    checked: bool,
    a_dropped: Arc<AtomicBool>,
}

impl Serializer for DropCheckBSerializer {
    fn poll(&mut self, _cx: &mut std::task::Context<'_>) -> Poll<Option<Result<Bytes, Error>>> {
        if !self.checked {
            assert!(
                self.a_dropped.load(Ordering::SeqCst),
                "first field serializer was not dropped before polling the second field"
            );
            self.checked = true;
            Poll::Ready(Some(Ok(Bytes::from_static(b"2"))))
        } else {
            Poll::Ready(None)
        }
    }
}

impl IntoSerializer for DropCheckB {
    type S = DropCheckBSerializer;

    fn into_serializer(self) -> Self::S {
        Self::S {
            checked: false,
            a_dropped: self.state,
        }
    }
    fn size(&self) -> Option<usize> {
        Some(1)
    }
}

#[test]
fn drop_check_test_previous_field_serializer_dropped_before_next_field() {
    let dropped = Arc::new(AtomicBool::new(false));
    let s = DropCheckStruct {
        a: DropCheckA {
            state: dropped.clone(),
        },
        b: DropCheckB {
            state: dropped.clone(),
        },
    };
    let bytes = collect_bytes(s.into_serializer());
    assert!(dropped.load(Ordering::SeqCst));
    assert_eq!(&bytes[..], b"{\"a\":1,\"b\":2}");
}
