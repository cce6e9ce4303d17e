use vstd::prelude::*;

verus! {

/// The transports a node can run over: a closed family.
#[derive(Debug, Clone, Copy, PartialEq, Eq, Structural)]
pub enum TransportKind {
    /// Noise-encrypted TCP.
    NoiseTcp,
    /// Noise-encrypted streams through a SOCKS5 proxy.
    NoiseSocks5,
    /// Plain TCP, allowed on regtest only.
    UnencryptedTcp,
}

/// Settings that cannot go together.
#[derive(Debug, Clone, Copy, PartialEq, Eq, Structural)]
pub enum ConfigProblem {
    /// Encryption was switched off outside the regtest network.
    EncryptionOffOutsideRegtest,
    /// A SOCKS5 proxy was asked for together with unencrypted transport.
    ProxyWithoutEncryption,
}

impl ConfigProblem {
    pub fn describe(&self) -> (r: &'static str)
        ensures
            *self == ConfigProblem::EncryptionOffOutsideRegtest ==> r@
                == "P2P encryption can only be disabled on the regtest network"@,
            *self == ConfigProblem::ProxyWithoutEncryption ==> r@
                == "SOCKS5 proxy support is not implemented for unencrypted"@,
    {
        match self {
            ConfigProblem::EncryptionOffOutsideRegtest => {
                "P2P encryption can only be disabled on the regtest network"
            },
            ConfigProblem::ProxyWithoutEncryption => {
                "SOCKS5 proxy support is not implemented for unencrypted"
            },
        }
    }
}

/// The transport the settings call for. Switching encryption off is allowed on regtest only,
/// and not together with a proxy; otherwise a proxy selects the SOCKS5 transport.
pub fn select_transport(disable_noise: Option<bool>, regtest: bool, proxy_set: bool) -> (r: Result<
    TransportKind,
    ConfigProblem,
>)
    ensures
        disable_noise == Some(true) && !regtest ==> r == Err::<TransportKind, ConfigProblem>(
            ConfigProblem::EncryptionOffOutsideRegtest,
        ),
        disable_noise == Some(true) && regtest && proxy_set ==> r == Err::<
            TransportKind,
            ConfigProblem,
        >(ConfigProblem::ProxyWithoutEncryption),
        disable_noise == Some(true) && regtest && !proxy_set ==> r == Ok::<
            TransportKind,
            ConfigProblem,
        >(TransportKind::UnencryptedTcp),
        disable_noise != Some(true) && proxy_set ==> r == Ok::<TransportKind, ConfigProblem>(
            TransportKind::NoiseSocks5,
        ),
        disable_noise != Some(true) && !proxy_set ==> r == Ok::<TransportKind, ConfigProblem>(
            TransportKind::NoiseTcp,
        ),
{
    let noise_off = match disable_noise {
        Some(off) => off,
        None => false,
    };
    if noise_off {
        if !regtest {
            Err(ConfigProblem::EncryptionOffOutsideRegtest)
        } else if proxy_set {
            Err(ConfigProblem::ProxyWithoutEncryption)
        } else {
            Ok(TransportKind::UnencryptedTcp)
        }
    } else if proxy_set {
        Ok(TransportKind::NoiseSocks5)
    } else {
        Ok(TransportKind::NoiseTcp)
    }
}

/// Which addresses the node listens on.
#[derive(Debug, Clone, Copy, PartialEq, Eq, Structural)]
pub enum BindPlan {
    /// The addresses the user gave.
    Given,
    /// The unspecified IPv4 and IPv6 addresses on this port.
    AnyOnPort(u16),
    /// None: with a proxy the node accepts no connections.
    Nothing,
}

/// Given addresses win; without them the node listens everywhere on its port, unless a proxy
/// is in use.
pub fn bind_plan(given_count: usize, p2p_port: u16, proxy_used: bool) -> (r: BindPlan)
    ensures
        given_count > 0 ==> r == BindPlan::Given,
        given_count == 0 && !proxy_used ==> r == BindPlan::AnyOnPort(p2p_port),
        given_count == 0 && proxy_used ==> r == BindPlan::Nothing,
{
    if given_count > 0 {
        BindPlan::Given
    } else if !proxy_used {
        BindPlan::AnyOnPort(p2p_port)
    } else {
        BindPlan::Nothing
    }
}

} // verus!
