//! Codec registry.
//!
//! [`CodecRegistry`] is the lookup table that maps codec names (`"pcm_s16le"`,
//! `"opus"`, ...) to factories that build encoders and decoders on demand.
//! Registering a name that is already present replaces its entry.

use vstd::prelude::*;
use vstd::string::*;
use crate::codec::{
    CodecCapabilities, CodecConfig, CodecDescriptor, DecodeRequest, DecodedFrame, Decoder,
    EncodeRequest, EncodedPacket, Encoder, MediaKind, SampleFormat, DECODE_BIT, ENCODE_BIT,
};
use crate::error::{
    in_context, not_found_message, plain_error, CodecError, CodecErrorKind, CodecErrorView,
    CodecResult,
};
use crate::pcm::{
    config_accepted, config_error, decode_outcome, decode_run, encode_outcome, initial_state,
    is_pcm_format, pcm_capability_bits, pcm_codec_name, register_all, registers_pcm,
};
use crate::text::{
    lemma_name_lt_irreflexive, lemma_name_lt_total, lemma_name_lt_transitive, name_lt,
    name_precedes, names_equal,
};

verus! {

// ─── Factories ──────────────────────────────────────────────────────────────

/// Builds decoder instances of one codec.
pub trait DecoderFactory: Send + Sync {
    /// Whether a decoder can be built for `config`.
    spec fn accepts(&self, config: CodecConfig) -> bool;

    /// The error given for a `config` that is not accepted.
    spec fn refusal(&self, config: CodecConfig) -> CodecErrorView;

    /// What a decoder built for `config` gives for `req` after `history`
    /// (see [`Decoder::decode_after`]).
    spec fn built_decode_after(
        &self,
        config: CodecConfig,
        history: Seq<DecodeRequest>,
        req: DecodeRequest,
    ) -> Result<DecodedFrame, CodecErrorView>;

    /// What a decoder built for `config` gives after a reset
    /// (see [`Decoder::decode_after_reset`]).
    spec fn built_decode_after_reset(
        &self,
        config: CodecConfig,
        history: Seq<DecodeRequest>,
        req: DecodeRequest,
    ) -> Result<DecodedFrame, CodecErrorView>;

    /// Whether the `reset` of a decoder built for `config` is bound to succeed
    /// (see [`Decoder::reset_never_fails`]).
    spec fn built_reset_never_fails(&self, config: CodecConfig) -> bool;

    /// Whether a decoder built for `config` holds no frames back
    /// (see [`Decoder::holds_no_frames`]).
    spec fn built_holds_no_frames(&self, config: CodecConfig) -> bool;

    /// A decoder for `config`, or the reason none can be built.
    fn create_decoder(&self, config: &CodecConfig) -> (r: CodecResult<Box<dyn Decoder>>)
        ensures
            r is Ok ==> r->Ok_0.reset_never_fails() == self.built_reset_never_fails(*config),
            r is Ok ==> r->Ok_0.holds_no_frames() == self.built_holds_no_frames(*config),
            r is Ok <==> self.accepts(*config),
            r is Err ==> r->Err_0@ == self.refusal(*config),
            r is Ok ==> forall|history: Seq<DecodeRequest>, req: DecodeRequest| #[trigger]
                r->Ok_0.decode_after(history, req) == self.built_decode_after(*config, history, req),
            r is Ok ==> forall|history: Seq<DecodeRequest>, req: DecodeRequest| #[trigger]
                r->Ok_0.decode_after_reset(history, req) == self.built_decode_after_reset(
                    *config,
                    history,
                    req,
                ),
    ;
}

/// Builds encoder instances of one codec.
pub trait EncoderFactory: Send + Sync {
    /// Whether an encoder can be built for `config`.
    spec fn accepts(&self, config: CodecConfig) -> bool;

    /// The error given for a `config` that is not accepted.
    spec fn refusal(&self, config: CodecConfig) -> CodecErrorView;

    /// What an encoder built for `config` gives for `req` after `history`
    /// (see [`Encoder::encode_after`]).
    spec fn built_encode_after(
        &self,
        config: CodecConfig,
        history: Seq<EncodeRequest>,
        req: EncodeRequest,
    ) -> Result<EncodedPacket, CodecErrorView>;

    /// What an encoder built for `config` gives after a reset
    /// (see [`Encoder::encode_after_reset`]).
    spec fn built_encode_after_reset(
        &self,
        config: CodecConfig,
        history: Seq<EncodeRequest>,
        req: EncodeRequest,
    ) -> Result<EncodedPacket, CodecErrorView>;

    /// Whether the `reset` of an encoder built for `config` is bound to succeed
    /// (see [`Encoder::reset_never_fails`]).
    spec fn built_reset_never_fails(&self, config: CodecConfig) -> bool;

    /// Whether an encoder built for `config` holds no packets back
    /// (see [`Encoder::holds_no_packets`]).
    spec fn built_holds_no_packets(&self, config: CodecConfig) -> bool;

    /// An encoder for `config`, or the reason none can be built.
    fn create_encoder(&self, config: &CodecConfig) -> (r: CodecResult<Box<dyn Encoder>>)
        ensures
            r is Ok ==> r->Ok_0.reset_never_fails() == self.built_reset_never_fails(*config),
            r is Ok ==> r->Ok_0.holds_no_packets() == self.built_holds_no_packets(*config),
            r is Ok <==> self.accepts(*config),
            r is Err ==> r->Err_0@ == self.refusal(*config),
            r is Ok ==> forall|history: Seq<EncodeRequest>, req: EncodeRequest| #[trigger]
                r->Ok_0.encode_after(history, req) == self.built_encode_after(*config, history, req),
            r is Ok ==> forall|history: Seq<EncodeRequest>, req: EncodeRequest| #[trigger]
                r->Ok_0.encode_after_reset(history, req) == self.built_encode_after_reset(
                    *config,
                    history,
                    req,
                ),
    ;
}

// ─── Registered entry ───────────────────────────────────────────────────────

/// One entry of the [`CodecRegistry`].
pub struct RegisteredCodec {
    /// Static descriptor; its name is the key of the entry.
    pub descriptor: CodecDescriptor,
    /// Decoder factory (`None` if encode-only).
    pub decoder_factory: Option<Box<dyn DecoderFactory>>,
    /// Encoder factory (`None` if decode-only).
    pub encoder_factory: Option<Box<dyn EncoderFactory>>,
}

/// The name under which an entry is registered.
pub open spec fn entry_name(e: RegisteredCodec) -> Seq<char> {
    e.descriptor.name@
}

/// Whether a descriptor passes the kind filter of [`CodecRegistry::list`].
pub open spec fn kind_selected(filter: Option<MediaKind>, d: CodecDescriptor) -> bool {
    match filter {
        Some(k) => d.kind == k,
        None => true,
    }
}

/// The kind filter of [`CodecRegistry::list`] lets every codec through when
/// there is no filter, and otherwise exactly the codecs of the filter's kind.
pub proof fn lemma_kind_filter(filter: Option<MediaKind>, d: CodecDescriptor)
    ensures
        filter is None ==> kind_selected(filter, d),
        filter matches Some(k) ==> (kind_selected(filter, d) <==> d.kind == k),
{
}

/// Message of a codec that has no decoder.
pub open spec fn no_decoder_message(name: Seq<char>) -> Seq<char> {
    "codec '"@ + name + "' has no decoder"@
}

/// Message of a codec that is not declared as a decoder.
pub open spec fn not_a_decoder_message(name: Seq<char>) -> Seq<char> {
    "codec '"@ + name + "' is not declared as a decoder"@
}

/// Message of a codec that has no encoder.
pub open spec fn no_encoder_message(name: Seq<char>) -> Seq<char> {
    "codec '"@ + name + "' has no encoder"@
}

/// Message of a codec that is not declared as an encoder.
pub open spec fn not_an_encoder_message(name: Seq<char>) -> Seq<char> {
    "codec '"@ + name + "' is not declared as an encoder"@
}

/// The error for a codec name that is not registered.
pub open spec fn not_found_error(name: Seq<char>) -> CodecErrorView {
    in_context(plain_error(CodecErrorKind::NotFound, not_found_message(name)), name)
}

/// An `Unsupported` error about codec `name`.
pub open spec fn unsupported_error(name: Seq<char>, message: Seq<char>) -> CodecErrorView {
    in_context(plain_error(CodecErrorKind::Unsupported, message), name)
}

/// Whether codec `name` is registered with a decoder factory and declared as
/// a decoder, so that building a decoder is up to its factory.
pub open spec fn decoder_ready(m: Map<Seq<char>, RegisteredCodec>, name: Seq<char>) -> bool {
    &&& m.dom().contains(name)
    &&& m[name].decoder_factory is Some
    &&& m[name].descriptor.capabilities.spec_has(DECODE_BIT)
}

/// Whether codec `name` is registered with an encoder factory and declared as
/// an encoder, so that building an encoder is up to its factory.
pub open spec fn encoder_ready(m: Map<Seq<char>, RegisteredCodec>, name: Seq<char>) -> bool {
    &&& m.dom().contains(name)
    &&& m[name].encoder_factory is Some
    &&& m[name].descriptor.capabilities.spec_has(ENCODE_BIT)
}

/// `r` is what the decoder factory `f` of `entry` gives for `config`: a decoder exactly when `f`
/// accepts the config, behaving as `f` says a decoder built for it does, or
/// else `f`'s refusal.
pub open spec fn decoder_from(
    entry: RegisteredCodec,
    config: CodecConfig,
    r: CodecResult<Box<dyn Decoder>>,
) -> bool {
    let f = entry.decoder_factory->Some_0;
    &&& r is Ok <==> f.accepts(config)
    &&& r is Err ==> r->Err_0@ == f.refusal(config)
    &&& r is Ok ==> forall|history: Seq<DecodeRequest>, req: DecodeRequest| #[trigger]
        r->Ok_0.decode_after(history, req) == f.built_decode_after(config, history, req)
    &&& r is Ok ==> forall|history: Seq<DecodeRequest>, req: DecodeRequest| #[trigger]
        r->Ok_0.decode_after_reset(history, req) == f.built_decode_after_reset(config, history, req)
    &&& r is Ok ==> r->Ok_0.reset_never_fails() == f.built_reset_never_fails(config)
    &&& r is Ok ==> r->Ok_0.holds_no_frames() == f.built_holds_no_frames(config)
}

/// `r` is what the encoder factory `f` of `entry` gives for `config`: an encoder exactly when `f`
/// accepts the config, behaving as `f` says an encoder built for it does, or
/// else `f`'s refusal.
pub open spec fn encoder_from(
    entry: RegisteredCodec,
    config: CodecConfig,
    r: CodecResult<Box<dyn Encoder>>,
) -> bool {
    let f = entry.encoder_factory->Some_0;
    &&& r is Ok <==> f.accepts(config)
    &&& r is Err ==> r->Err_0@ == f.refusal(config)
    &&& r is Ok ==> forall|history: Seq<EncodeRequest>, req: EncodeRequest| #[trigger]
        r->Ok_0.encode_after(history, req) == f.built_encode_after(config, history, req)
    &&& r is Ok ==> forall|history: Seq<EncodeRequest>, req: EncodeRequest| #[trigger]
        r->Ok_0.encode_after_reset(history, req) == f.built_encode_after_reset(config, history, req)
    &&& r is Ok ==> r->Ok_0.reset_never_fails() == f.built_reset_never_fails(config)
    &&& r is Ok ==> r->Ok_0.holds_no_packets() == f.built_holds_no_packets(config)
}

// ─── Sorted entry sequences ─────────────────────────────────────────────────

/// Entries in strictly increasing name order (so no name occurs twice).
pub open spec fn sorted_by_name(s: Seq<RegisteredCodec>) -> bool {
    forall|i: int, j: int|
        0 <= i < j < s.len() ==> name_lt(#[trigger] entry_name(s[i]), #[trigger] entry_name(s[j]))
}

/// Whether some entry of `s` is registered under `name`.
pub open spec fn has_name(s: Seq<RegisteredCodec>, name: Seq<char>) -> bool {
    exists|i: int| 0 <= i < s.len() && entry_name(#[trigger] s[i]) == name
}

/// The entry of `s` registered under `name`.
pub open spec fn entry_for(s: Seq<RegisteredCodec>, name: Seq<char>) -> RegisteredCodec {
    s[choose|i: int| 0 <= i < s.len() && entry_name(#[trigger] s[i]) == name]
}

/// The map from names to entries that a sequence of entries stands for.
pub open spec fn entries_map(s: Seq<RegisteredCodec>) -> Map<Seq<char>, RegisteredCodec> {
    Map::new(|name: Seq<char>| has_name(s, name), |name: Seq<char>| entry_for(s, name))
}

proof fn lemma_sorted_unique(s: Seq<RegisteredCodec>, i: int, j: int)
    requires
        sorted_by_name(s),
        0 <= i < s.len(),
        0 <= j < s.len(),
        entry_name(s[i]) == entry_name(s[j]),
    ensures
        i == j,
{
    if i < j {
        assert(name_lt(entry_name(s[i]), entry_name(s[j])));
        lemma_name_lt_irreflexive(entry_name(s[i]));
    } else if j < i {
        assert(name_lt(entry_name(s[j]), entry_name(s[i])));
        lemma_name_lt_irreflexive(entry_name(s[i]));
    }
}

proof fn lemma_entry_at(s: Seq<RegisteredCodec>, i: int)
    requires
        sorted_by_name(s),
        0 <= i < s.len(),
    ensures
        has_name(s, entry_name(s[i])),
        entry_for(s, entry_name(s[i])) == s[i],
        entries_map(s).dom().contains(entry_name(s[i])),
        entries_map(s)[entry_name(s[i])] == s[i],
{
    let name = entry_name(s[i]);
    assert(0 <= i < s.len() && entry_name(s[i]) == name);
    let j = choose|j: int| 0 <= j < s.len() && entry_name(#[trigger] s[j]) == name;
    lemma_sorted_unique(s, i, j);
}

// ─── Registry ───────────────────────────────────────────────────────────────

/// Map of codec name to registered codec.
pub struct CodecRegistry {
    entries: Vec<RegisteredCodec>,
}

impl View for CodecRegistry {
    type V = Map<Seq<char>, RegisteredCodec>;

    closed spec fn view(&self) -> Map<Seq<char>, RegisteredCodec> {
        entries_map(self.entries@)
    }
}

impl CodecRegistry {
    /// Entries are kept in strictly increasing name order.
    #[verifier::type_invariant]
    pub closed spec fn wf(&self) -> bool {
        sorted_by_name(self.entries@)
    }

    /// Every entry is registered under its own descriptor's name.
    pub proof fn lemma_entries_under_own_name(&self, name: Seq<char>)
        requires
            self.wf(),
            self@.dom().contains(name),
        ensures
            entry_name(self@[name]) == name,
    {
        let s = self.entries@;
        let i = choose|i: int| 0 <= i < s.len() && entry_name(#[trigger] s[i]) == name;
        lemma_entry_at(s, i);
    }

    /// An empty registry.
    pub fn new() -> (r: CodecRegistry)
        ensures
            r@ == Map::<Seq<char>, RegisteredCodec>::empty(),
    {
        let r = CodecRegistry { entries: Vec::new() };
        assert(r@ =~= Map::<Seq<char>, RegisteredCodec>::empty());
        r
    }

    /// Index of the entry registered under `name`, if any.
    fn position_of(&self, name: &str) -> (r: Option<usize>)
        ensures
            match r {
                Some(i) => i < self.entries@.len() && entry_name(self.entries@[i as int]) == name@,
                None => !has_name(self.entries@, name@),
            },
    {
        let mut i: usize = 0;
        while i < self.entries.len()
            invariant
                i <= self.entries@.len(),
                forall|j: int| 0 <= j < i ==> entry_name(#[trigger] self.entries@[j]) != name@,
            decreases self.entries@.len() - i,
        {
            if names_equal(self.entries[i].descriptor.name, name) {
                return Some(i);
            }
            i = i + 1;
        }
        None
    }

    /// Remove the codec registered under `name`; whether there was one.
    pub fn unregister(&mut self, name: &str) -> (existed: bool)
        ensures
            existed == old(self)@.dom().contains(name@),
            final(self)@ == old(self)@.remove(name@),
    {
        proof {
            use_type_invariant(&*self);
        }
        let ghost s = self.entries@;
        match self.position_of(name) {
            Some(i) => {
                let mut entries: Vec<RegisteredCodec> = Vec::new();
                std::mem::swap(&mut entries, &mut self.entries);
                let _removed = entries.remove(i);
                proof {
                    lemma_entry_at(s, i as int);
                    lemma_remove_view(s, i as int);
                }
                self.entries = entries;
                true
            },
            None => {
                assert(self@ =~= old(self)@.remove(name@));
                false
            },
        }
    }

    /// The codec registered under `name`, if any.
    pub fn find(&self, name: &str) -> (r: Option<&RegisteredCodec>)
        ensures
            match r {
                Some(e) => self@.dom().contains(name@) && *e == self@[name@],
                None => !self@.dom().contains(name@),
            },
    {
        proof {
            use_type_invariant(self);
        }
        match self.position_of(name) {
            Some(i) => {
                proof {
                    lemma_entry_at(self.entries@, i as int);
                }
                Some(&self.entries[i])
            },
            None => None,
        }
    }

    /// All registered codec names, in increasing order.
    pub fn names(&self) -> (r: Vec<&'static str>)
        ensures
            forall|i: int| 0 <= i < r@.len() ==> self@.dom().contains(#[trigger] r@[i]@),
            forall|name: Seq<char>| #[trigger] self@.dom().contains(name) ==> exists|i: int|
                0 <= i < r@.len() && r@[i]@ == name,
            forall|i: int, j: int| 0 <= i < j < r@.len() ==> name_lt(#[trigger] r@[i]@, #[trigger] r@[j]@),
    {
        proof {
            use_type_invariant(self);
        }
        let ghost s = self.entries@;
        let mut out: Vec<&'static str> = Vec::new();
        let mut i: usize = 0;
        while i < self.entries.len()
            invariant
                s == self.entries@,
                sorted_by_name(s),
                i <= s.len(),
                out@.len() == i,
                forall|k: int| 0 <= k < i ==> #[trigger] out@[k]@ == entry_name(s[k]),
            decreases s.len() - i,
        {
            out.push(self.entries[i].descriptor.name);
            i = i + 1;
        }
        proof {
            assert forall|k: int| 0 <= k < out@.len() implies self@.dom().contains(#[trigger] out@[k]@) by {
                lemma_entry_at(s, k);
            }
            assert forall|name: Seq<char>| #[trigger] self@.dom().contains(name) implies exists|k: int|
                0 <= k < out@.len() && out@[k]@ == name by {
                let k = choose|k: int| 0 <= k < s.len() && entry_name(#[trigger] s[k]) == name;
                assert(out@[k]@ == name);
            }
            assert forall|a: int, b: int| 0 <= a < b < out@.len() implies name_lt(#[trigger] out@[a]@, #[trigger] out@[b]@) by {
                assert(out@[a]@ == entry_name(s[a]));
                assert(out@[b]@ == entry_name(s[b]));
            }
        }
        out
    }

    /// Descriptors of the registered codecs whose kind is `kind` (all of
    /// them when `kind` is `None`), in increasing name order.
    pub fn list(&self, kind: Option<MediaKind>) -> (r: Vec<CodecDescriptor>)
        ensures
            forall|i: int| 0 <= i < r@.len() ==> {
                &&& self@.dom().contains(#[trigger] r@[i].name@)
                &&& self@[r@[i].name@].descriptor == r@[i]
                &&& kind_selected(kind, r@[i])
            },
            forall|name: Seq<char>| #[trigger] self@.dom().contains(name) && kind_selected(kind, self@[name].descriptor)
                ==> exists|i: int| 0 <= i < r@.len() && r@[i].name@ == name,
            forall|i: int, j: int| 0 <= i < j < r@.len() ==> name_lt(#[trigger] r@[i].name@, #[trigger] r@[j].name@),
            kind is None ==> forall|name: Seq<char>| #[trigger] self@.dom().contains(name) ==> exists|i: int|
                0 <= i < r@.len() && r@[i].name@ == name,
            kind is Some ==> forall|i: int| 0 <= i < r@.len() ==> #[trigger] r@[i].kind == kind->Some_0,
            kind is Some ==> forall|name: Seq<char>| #[trigger] self@.dom().contains(name)
                && self@[name].descriptor.kind == kind->Some_0 ==> exists|i: int| 0 <= i < r@.len()
                && r@[i].name@ == name,
    {
        proof {
            use_type_invariant(self);
        }
        let ghost s = self.entries@;
        let mut out: Vec<CodecDescriptor> = Vec::new();
        let ghost mut from: Seq<int> = Seq::empty();
        let mut i: usize = 0;
        while i < self.entries.len()
            invariant
                s == self.entries@,
                sorted_by_name(s),
                i <= s.len(),
                from.len() == out@.len(),
                forall|k: int| 0 <= k < from.len() ==> 0 <= #[trigger] from[k] < i && out@[k] == s[from[k]].descriptor
                    && kind_selected(kind, out@[k]),
                forall|a: int, b: int| 0 <= a < b < from.len() ==> #[trigger] from[a] < #[trigger] from[b],
                forall|j: int| 0 <= j < i && kind_selected(kind, #[trigger] s[j].descriptor) ==> exists|k: int|
                    0 <= k < from.len() && from[k] == j,
            decreases s.len() - i,
        {
            let ghost prev = from;
            let d = self.entries[i].descriptor;
            let selected = match kind {
                Some(k) => d.kind == k,
                None => true,
            };
            assert(selected == kind_selected(kind, s[i as int].descriptor));
            if selected {
                out.push(d);
                proof {
                    from = from.push(i as int);
                }
            }
            proof {
                assert forall|j: int| 0 <= j < i + 1 && kind_selected(kind, #[trigger] s[j].descriptor)
                    implies exists|k: int| 0 <= k < from.len() && from[k] == j by {
                    if j < i {
                        let k = choose|k: int| 0 <= k < prev.len() && prev[k] == j;
                        assert(from[k] == j);
                    } else {
                        assert(from[from.len() - 1] == j);
                    }
                }
            }
            i = i + 1;
        }
        proof {
            assert forall|k: int| 0 <= k < out@.len() implies {
                &&& self@.dom().contains(#[trigger] out@[k].name@)
                &&& self@[out@[k].name@].descriptor == out@[k]
                &&& kind_selected(kind, out@[k])
            } by {
                assert(0 <= from[k] < s.len());
                lemma_entry_at(s, from[k]);
            }
            assert forall|name: Seq<char>| #[trigger] self@.dom().contains(name) && kind_selected(kind, self@[name].descriptor)
                implies exists|k: int| 0 <= k < out@.len() && out@[k].name@ == name by {
                let j = choose|j: int| 0 <= j < s.len() && entry_name(#[trigger] s[j]) == name;
                lemma_entry_at(s, j);
                assert(kind_selected(kind, s[j].descriptor));
                let k = choose|k: int| 0 <= k < from.len() && from[k] == j;
                assert(out@[k].name@ == name);
            }
            assert forall|a: int, b: int| 0 <= a < b < out@.len() implies name_lt(#[trigger] out@[a].name@, #[trigger] out@[b].name@) by {
                assert(from[a] < from[b]);
                assert(entry_name(s[from[a]]) == out@[a].name@);
                assert(entry_name(s[from[b]]) == out@[b].name@);
            }
            assert forall|k: int| 0 <= k < out@.len() && kind is Some implies #[trigger] out@[k].kind
                == kind->Some_0 by {
                assert(self@.dom().contains(out@[k].name@));
                assert(kind_selected(kind, out@[k]));
            }
        }
        out
    }

    /// Build a decoder of the codec registered under `name`: the codec must
    /// exist, have a decoder factory and be declared as a decoder; then its
    /// factory builds the decoder from `config`.
    pub fn create_decoder(&self, name: &str, config: CodecConfig) -> (r: CodecResult<Box<dyn Decoder>>)
        ensures
            !self@.dom().contains(name@) ==> (r matches Err(e) && e@ == not_found_error(name@)),
            self@.dom().contains(name@) && self@[name@].decoder_factory is None ==> (r matches Err(e)
                && e@ == unsupported_error(name@, no_decoder_message(name@))),
            self@.dom().contains(name@) && self@[name@].decoder_factory is Some
                && !self@[name@].descriptor.capabilities.spec_has(DECODE_BIT) ==> (r matches Err(e)
                && e@ == unsupported_error(name@, not_a_decoder_message(name@))),
            decoder_ready(self@, name@) ==> decoder_from(self@[name@], config, r),
    {
        let entry = match self.find(name) {
            Some(e) => e,
            None => return Err(CodecError::not_found(name)),
        };
        let factory = match &entry.decoder_factory {
            Some(f) => f,
            None => {
                let mut message = String::from_str("codec '");
                message.append(name);
                message.append("' has no decoder");
                return Err(CodecError::unsupported(message.as_str()).with_context(name));
            },
        };
        if !entry.descriptor.capabilities.contains(CodecCapabilities::DECODE()) {
            let mut message = String::from_str("codec '");
            message.append(name);
            message.append("' is not declared as a decoder");
            return Err(CodecError::unsupported(message.as_str()).with_context(name));
        }
        let r = factory.create_decoder(&config);
        proof {
            assert(*factory == self@[name@].decoder_factory->Some_0);
        }
        r
    }

    /// Build an encoder of the codec registered under `name`: the codec must
    /// exist, have an encoder factory and be declared as an encoder; then its
    /// factory builds the encoder from `config`.
    pub fn create_encoder(&self, name: &str, config: CodecConfig) -> (r: CodecResult<Box<dyn Encoder>>)
        ensures
            !self@.dom().contains(name@) ==> (r matches Err(e) && e@ == not_found_error(name@)),
            self@.dom().contains(name@) && self@[name@].encoder_factory is None ==> (r matches Err(e)
                && e@ == unsupported_error(name@, no_encoder_message(name@))),
            self@.dom().contains(name@) && self@[name@].encoder_factory is Some
                && !self@[name@].descriptor.capabilities.spec_has(ENCODE_BIT) ==> (r matches Err(e)
                && e@ == unsupported_error(name@, not_an_encoder_message(name@))),
            encoder_ready(self@, name@) ==> encoder_from(self@[name@], config, r),
    {
        let entry = match self.find(name) {
            Some(e) => e,
            None => return Err(CodecError::not_found(name)),
        };
        let factory = match &entry.encoder_factory {
            Some(f) => f,
            None => {
                let mut message = String::from_str("codec '");
                message.append(name);
                message.append("' has no encoder");
                return Err(CodecError::unsupported(message.as_str()).with_context(name));
            },
        };
        if !entry.descriptor.capabilities.contains(CodecCapabilities::ENCODE()) {
            let mut message = String::from_str("codec '");
            message.append(name);
            message.append("' is not declared as an encoder");
            return Err(CodecError::unsupported(message.as_str()).with_context(name));
        }
        let r = factory.create_encoder(&config);
        proof {
            assert(*factory == self@[name@].encoder_factory->Some_0);
        }
        r
    }

    /// Register a codec under its descriptor's name, replacing any entry of
    /// the same name.
    pub fn register(&mut self, entry: RegisteredCodec)
        ensures
            final(self)@ == old(self)@.insert(entry_name(entry), entry),
    {
        proof {
            use_type_invariant(&*self);
        }
        let ghost s = self.entries@;
        let ghost name = entry_name(entry);
        let mut i: usize = 0;
        while i < self.entries.len() && name_precedes(self.entries[i].descriptor.name, entry.descriptor.name)
            invariant
                self.entries@ == s,
                sorted_by_name(s),
                name == entry_name(entry),
                i <= s.len(),
                forall|j: int| 0 <= j < i ==> name_lt(#[trigger] entry_name(s[j]), name),
            decreases s.len() - i,
        {
            i = i + 1;
        }
        // every entry from position `i` on comes after `name`, or is `name` itself
        assert forall|j: int| i <= j < s.len() implies entry_name(#[trigger] s[j]) == name || name_lt(
            name,
            entry_name(s[j]),
        ) by {
            if !name_lt(entry_name(s[i as int]), name) {
                if entry_name(s[i as int]) != name {
                    lemma_name_lt_total(entry_name(s[i as int]), name);
                }
                if j > i {
                    if entry_name(s[i as int]) == name {
                        assert(name_lt(entry_name(s[i as int]), entry_name(s[j])));
                    } else {
                        assert(name_lt(entry_name(s[i as int]), entry_name(s[j])));
                        lemma_name_lt_transitive(name, entry_name(s[i as int]), entry_name(s[j]));
                    }
                }
            }
        }
        let replace = i < self.entries.len() && names_equal(self.entries[i].descriptor.name, entry.descriptor.name);
        let mut entries: Vec<RegisteredCodec> = Vec::new();
        std::mem::swap(&mut entries, &mut self.entries);
        if replace {
            entries.set(i, entry);
            proof {
                let t = s.update(i as int, entry);
                assert(entries@ == t);
                assert(sorted_by_name(t)) by {
                    assert forall|a: int, b: int| 0 <= a < b < t.len() implies name_lt(
                        #[trigger] entry_name(t[a]),
                        #[trigger] entry_name(t[b]),
                    ) by {
                        assert(entry_name(t[a]) == entry_name(s[a]));
                        assert(entry_name(t[b]) == entry_name(s[b]));
                    }
                }
                lemma_put_view(s, t, i as int, entry);
            }
        } else {
            entries.insert(i, entry);
            proof {
                let t = s.insert(i as int, entry);
                assert(entries@ == t);
                assert(sorted_by_name(t)) by {
                    assert forall|a: int, b: int| 0 <= a < b < t.len() implies name_lt(
                        #[trigger] entry_name(t[a]),
                        #[trigger] entry_name(t[b]),
                    ) by {
                        if b < i {
                            assert(t[a] == s[a] && t[b] == s[b]);
                        } else if b == i {
                            assert(t[a] == s[a]);
                        } else if a == i {
                            assert(t[b] == s[b - 1]);
                            assert(entry_name(s[b - 1]) != name);
                        } else if a < i {
                            assert(t[a] == s[a] && t[b] == s[b - 1]);
                            assert(entry_name(s[b - 1]) != name);
                            lemma_name_lt_transitive(entry_name(s[a]), name, entry_name(s[b - 1]));
                        } else {
                            assert(t[a] == s[a - 1] && t[b] == s[b - 1]);
                        }
                    }
                }
                lemma_put_view(s, t, i as int, entry);
            }
        }
        self.entries = entries;
    }
}

impl Default for CodecRegistry {
    fn default() -> (r: CodecRegistry)
        ensures
            r@ == Map::<Seq<char>, RegisteredCodec>::empty(),
    {
        CodecRegistry::new()
    }
}

/// A registry holding the built-in codecs: the PCM codecs.
pub fn builtin_registry() -> (r: CodecRegistry)
    ensures
        registers_pcm(Map::empty(), r@),
{
    let mut reg = CodecRegistry::new();
    register_all(&mut reg);
    reg
}

// ─── Laws ───────────────────────────────────────────────────────────────────

/// After registering an entry, looking its name up finds that entry and no
/// other name changes; unregistering the name afterwards removes it (so a
/// second unregister finds nothing), and restores the registry when the name
/// was not registered before.
pub proof fn lemma_register_find_unregister(
    before: Map<Seq<char>, RegisteredCodec>,
    entry: RegisteredCodec,
    other: Seq<char>,
)
    ensures
        ({
            let name = entry_name(entry);
            let after = before.insert(name, entry);
            &&& after.dom().contains(name)
            &&& after[name] == entry
            &&& other != name ==> (after.dom().contains(other) == before.dom().contains(other)
                && after[other] == before[other])
            &&& !after.remove(name).dom().contains(name)
            &&& !before.dom().contains(name) ==> after.remove(name) == before
        }),
{
    let name = entry_name(entry);
    let after = before.insert(name, entry);
    if !before.dom().contains(name) {
        assert(after.remove(name) =~= before);
    }
}

/// Every codec of the built-in registry is a PCM codec: an audio codec that
/// is declared both as a decoder and as an encoder, with both factories.
pub proof fn lemma_builtin_codecs(reg: Map<Seq<char>, RegisteredCodec>, name: Seq<char>)
    requires
        registers_pcm(Map::empty(), reg),
        reg.dom().contains(name),
    ensures
        reg[name].descriptor.kind == MediaKind::Audio,
        reg[name].descriptor.capabilities.spec_has(DECODE_BIT),
        reg[name].descriptor.capabilities.spec_has(ENCODE_BIT),
        reg[name].decoder_factory is Some,
        reg[name].encoder_factory is Some,
{
    let f = choose|f: SampleFormat| is_pcm_format(f) && pcm_codec_name(f) == name;
    assert(is_pcm_format(f));
    assert(pcm_capability_bits() & DECODE_BIT == DECODE_BIT) by (bit_vector);
    assert(pcm_capability_bits() & ENCODE_BIT == ENCODE_BIT) by (bit_vector);
}

/// In the built-in registry, the codec of each PCM format is ready to build
/// decoders, and the decoder result that `create_decoder` gives for its name
/// is what `PcmCodec::new` gives for its descriptor, format and the config:
/// a decoder exactly when the config is accepted, which then decodes as the
/// new codec does, can always be reset and has nothing to flush, or else the
/// same error.
pub proof fn lemma_builtin_pcm_decoder(
    reg: Map<Seq<char>, RegisteredCodec>,
    format: SampleFormat,
    config: CodecConfig,
    r: CodecResult<Box<dyn Decoder>>,
)
    requires
        registers_pcm(Map::empty(), reg),
        is_pcm_format(format),
        decoder_ready(reg, pcm_codec_name(format)) ==> decoder_from(reg[pcm_codec_name(format)], config, r),
    ensures
        decoder_ready(reg, pcm_codec_name(format)),
        r is Ok <==> config_accepted(config),
        r is Err ==> r->Err_0@ == config_error(reg[pcm_codec_name(format)].descriptor, config),
        r is Ok ==> forall|history: Seq<DecodeRequest>, req: DecodeRequest| #[trigger]
            r->Ok_0.decode_after(history, req) == decode_outcome(
                decode_run(initial_state(reg[pcm_codec_name(format)].descriptor, format, config), history),
                req,
            ),
        r is Ok ==> r->Ok_0.reset_never_fails(),
        r is Ok ==> r->Ok_0.holds_no_frames(),
{
    let name = pcm_codec_name(format);
    assert(reg.dom().contains(name));
    lemma_builtin_codecs(reg, name);
}

/// In the built-in registry, the encoder result that `create_encoder` gives
/// for the name of a PCM format is what `PcmCodec::new` gives: an encoder
/// exactly when the config is accepted, which then encodes as the new codec
/// does, can always be reset and has nothing to flush, or else the same error.
pub proof fn lemma_builtin_pcm_encoder(
    reg: Map<Seq<char>, RegisteredCodec>,
    format: SampleFormat,
    config: CodecConfig,
    r: CodecResult<Box<dyn Encoder>>,
)
    requires
        registers_pcm(Map::empty(), reg),
        is_pcm_format(format),
        encoder_ready(reg, pcm_codec_name(format)) ==> encoder_from(reg[pcm_codec_name(format)], config, r),
    ensures
        encoder_ready(reg, pcm_codec_name(format)),
        r is Ok <==> config_accepted(config),
        r is Err ==> r->Err_0@ == config_error(reg[pcm_codec_name(format)].descriptor, config),
        r is Ok ==> forall|history: Seq<EncodeRequest>, req: EncodeRequest| #[trigger]
            r->Ok_0.encode_after(history, req) == encode_outcome(
                initial_state(reg[pcm_codec_name(format)].descriptor, format, config),
                req,
            ),
        r is Ok ==> r->Ok_0.reset_never_fails(),
        r is Ok ==> r->Ok_0.holds_no_packets(),
{
    let name = pcm_codec_name(format);
    assert(reg.dom().contains(name));
    lemma_builtin_codecs(reg, name);
}

/// Removing the entry at position `i` removes its name from the view.
proof fn lemma_remove_view(s: Seq<RegisteredCodec>, i: int)
    requires
        sorted_by_name(s),
        0 <= i < s.len(),
    ensures
        sorted_by_name(s.remove(i)),
        entries_map(s.remove(i)) =~= entries_map(s).remove(entry_name(s[i])),
{
    let t = s.remove(i);
    let name = entry_name(s[i]);
    assert forall|a: int, b: int| 0 <= a < b < t.len() implies name_lt(
        #[trigger] entry_name(t[a]),
        #[trigger] entry_name(t[b]),
    ) by {
        if b < i {
            assert(t[a] == s[a] && t[b] == s[b]);
        } else if a < i {
            assert(t[a] == s[a] && t[b] == s[b + 1]);
        } else {
            assert(t[a] == s[a + 1] && t[b] == s[b + 1]);
        }
    }
    assert forall|key: Seq<char>| #[trigger] entries_map(t).dom().contains(key) <==> entries_map(s).remove(name).dom().contains(key) by {
        if has_name(t, key) {
            let k = choose|k: int| 0 <= k < t.len() && entry_name(#[trigger] t[k]) == key;
            if k < i {
                assert(t[k] == s[k]);
                lemma_entry_at(s, k);
                if key == name {
                    lemma_sorted_unique(s, i, k);
                }
            } else {
                assert(t[k] == s[k + 1]);
                lemma_entry_at(s, k + 1);
                if key == name {
                    lemma_sorted_unique(s, i, k + 1);
                }
            }
        }
        if has_name(s, key) && key != name {
            let j = choose|j: int| 0 <= j < s.len() && entry_name(#[trigger] s[j]) == key;
            assert(j != i);
            if j < i {
                assert(t[j] == s[j]);
                lemma_entry_at(t, j);
            } else {
                assert(t[j - 1] == s[j]);
                lemma_entry_at(t, j - 1);
            }
        }
    }
    assert forall|key: Seq<char>| #[trigger] entries_map(t).dom().contains(key) implies entries_map(t)[key] == entries_map(s).remove(name)[key] by {
        let k = choose|k: int| 0 <= k < t.len() && entry_name(#[trigger] t[k]) == key;
        lemma_entry_at(t, k);
        if k < i {
            assert(t[k] == s[k]);
            lemma_entry_at(s, k);
        } else {
            assert(t[k] == s[k + 1]);
            lemma_entry_at(s, k + 1);
        }
    }
}

/// The view after putting `entry` at position `i` of `s` (in place of the
/// entry of the same name, or inserted there) is the old view with `entry` added.
proof fn lemma_put_view(s: Seq<RegisteredCodec>, t: Seq<RegisteredCodec>, i: int, entry: RegisteredCodec)
    requires
        sorted_by_name(s),
        sorted_by_name(t),
        0 <= i < t.len(),
        (i < s.len() && entry_name(s[i]) == entry_name(entry) && t == s.update(i, entry)) || (i
            <= s.len() && t == s.insert(i, entry)),
    ensures
        entries_map(t) =~= entries_map(s).insert(entry_name(entry), entry),
{
    let name = entry_name(entry);
    let replaced = i < s.len() && entry_name(s[i]) == name && t == s.update(i, entry);
    lemma_entry_at(t, i);
    assert forall|key: Seq<char>| #[trigger] entries_map(t).dom().contains(key) <==> entries_map(s).insert(name, entry).dom().contains(key) by {
        if has_name(t, key) && key != name {
            let k = choose|k: int| 0 <= k < t.len() && entry_name(#[trigger] t[k]) == key;
            assert(k != i);
            if replaced {
                assert(t[k] == s[k]);
                lemma_entry_at(s, k);
            } else if k < i {
                assert(t[k] == s[k]);
                lemma_entry_at(s, k);
            } else {
                assert(k > i);
                assert(t[k] == s[k - 1]);
                lemma_entry_at(s, k - 1);
            }
        }
        if has_name(s, key) && key != name {
            let j = choose|j: int| 0 <= j < s.len() && entry_name(#[trigger] s[j]) == key;
            if replaced {
                assert(j != i);
            }
            if replaced || j < i {
                assert(t[j] == s[j]);
                lemma_entry_at(t, j);
            } else {
                assert(t[j + 1] == s[j]);
                lemma_entry_at(t, j + 1);
            }
        }
    }
    assert forall|key: Seq<char>| #[trigger] entries_map(t).dom().contains(key) implies entries_map(t)[key] == entries_map(s).insert(name, entry)[key] by {
        if key != name {
            let j = choose|j: int| 0 <= j < s.len() && entry_name(#[trigger] s[j]) == key;
            lemma_entry_at(s, j);
            if replaced || j < i {
                assert(t[j] == s[j]);
                lemma_entry_at(t, j);
            } else {
                assert(t[j + 1] == s[j]);
                lemma_entry_at(t, j + 1);
            }
        }
    }
}

} // verus!
